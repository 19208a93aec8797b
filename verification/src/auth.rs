//! The auth record: at most one exists locally at any time.  Login clears
//! every prior record before storing the newly issued token; logout deletes
//! locally only, since the remote side issues sessions and mirrors nothing.

use vstd::prelude::*;
use vstd::string::*;

use crate::api_client::{EmptyData, RemotePost};
use crate::flowlet_db::{ids_of, lemma_disjoint_push, lemma_id_push, FlowletDb, StoreDoc};
use crate::json;
use crate::query::{Query, QueryField, QueryValue};

verus! {

/// The locally held auth token.
pub struct Auth {
    pub _id: u64,
    pub flowlet_token: String,
}

pub struct CreateAuthInput {
    pub email: String,
    pub password: String,
}

#[derive(Debug)]
pub enum AuthError {
    LoginFailed,
    UpdateNotSupported,
    AuthReadFailed,
    AuthNotFound,
}

impl StoreDoc for Auth {
    open spec fn doc_id(self) -> u64 {
        self._id
    }

    open spec fn q_matches(self, q: Query) -> bool {
        match q {
            Query::All => true,
            Query::Eq(f, v) => match f {
                QueryField::Id => v matches QueryValue::Num(n) && n == self._id,
                QueryField::Name => false,
                QueryField::Project => false,
                QueryField::Title => false,
            },
        }
    }

    open spec fn eqv(self, other: Self) -> bool {
        self == other
    }

    open spec fn doc_json(self) -> Seq<char> {
        auth_json(self)
    }

    fn render_json(&self) -> (r: String) {
        self.to_json()
    }

    fn matches_query(&self, q: &Query) -> (b: bool) {
        match q {
            Query::All => true,
            Query::Eq(f, v) => match (f, v) {
                (QueryField::Id, QueryValue::Num(n)) => *n == self._id,
                _ => false,
            },
        }
    }

    fn duplicate(&self) -> (r: Self) {
        Auth { _id: self._id, flowlet_token: self.flowlet_token.clone() }
    }
}

/// The record's JSON rendering, field for field.
pub open spec fn auth_json(a: Auth) -> Seq<char> {
    "{\"_id\":"@ + json::dec_str(a._id as nat) + ",\"flowlet_token\":"@ + json::quoted(
        a.flowlet_token@,
    ) + "}"@
}

impl Auth {
    /// Renders the record as the JSON document the store file holds.
    pub fn to_json(&self) -> (r: String)
        ensures
            r@ == auth_json(*self),
    {
        let mut out = String::from_str("{\"_id\":");
        out.append(json::u64_string(self._id).as_str());
        out.append(",\"flowlet_token\":");
        out.append(json::quote(self.flowlet_token.as_str()).as_str());
        out.append("}");
        out
    }

    /// The login call the application performs first: the credentials go to
    /// the session endpoint, which answers with a freshly issued token.
    pub fn login_request(input: &CreateAuthInput) -> (post: RemotePost)
        ensures
            post.path@ == "/auth/login"@,
            post.body@ == "{\"email\":"@ + json::quoted(input.email@) + ",\"password\":"@
                + json::quoted(input.password@) + "}"@,
    {
        let mut body = String::from_str("{\"email\":");
        body.append(json::quote(input.email.as_str()).as_str());
        body.append(",\"password\":");
        body.append(json::quote(input.password.as_str()).as_str());
        body.append("}");
        RemotePost { path: String::from_str("/auth/login"), body }
    }

    /// The registration call, with the same body shape; its response carries
    /// no data.
    pub fn register_request(input: &CreateAuthInput) -> (post: RemotePost)
        ensures
            post.path@ == "/auth/register"@,
            post.body@ == "{\"email\":"@ + json::quoted(input.email@) + ",\"password\":"@
                + json::quoted(input.password@) + "}"@,
    {
        let mut body = String::from_str("{\"email\":");
        body.append(json::quote(input.email.as_str()).as_str());
        body.append(",\"password\":");
        body.append(json::quote(input.password.as_str()).as_str());
        body.append("}");
        RemotePost { path: String::from_str("/auth/register"), body }
    }

    /// The local half of `create` (login), once the remote has issued a
    /// token: every prior auth record is deleted before the new one is
    /// stored, so exactly one record remains, holding the new token —
    /// whatever the old one held.
    pub fn store_token(db: &mut FlowletDb, token: String) -> (r: Result<Auth, AuthError>)
        requires
            old(db).wf(),
        ensures
            final(db).wf(),
            final(db).commands == old(db).commands,
            final(db).tasks == old(db).tasks,
            final(db).projects == old(db).projects,
            final(db).variables == old(db).variables,
            match r {
                Ok(rec) => {
                    &&& final(db).auths@ == seq![
                        Auth { _id: old(db).next_id, flowlet_token: token },
                    ]
                    &&& rec.eqv(final(db).auths@[0])
                    &&& rec._id == old(db).next_id
                    &&& !old(db).id_present(rec._id)
                    &&& final(db).next_id == old(db).next_id + 1
                },
                Err(e) => {
                    &&& e is LoginFailed
                    &&& *final(db) == *old(db)
                    &&& old(db).next_id == u64::MAX
                },
            },
    {
        let id = match db.take_fresh_id() {
            Some(id) => id,
            None => {
                return Err(AuthError::LoginFailed);
            },
        };
        db.auths.clear();
        let rec = Auth { _id: id, flowlet_token: token };
        let copy = rec.duplicate();
        proof {
            let c = ids_of(old(db).commands@);
            let t = ids_of(old(db).tasks@);
            let p = ids_of(old(db).projects@);
            let v = ids_of(old(db).variables@);
            let empty = Seq::<u64>::empty();
            lemma_id_push(empty, id, id, (id + 1) as u64);
            lemma_disjoint_push(c, empty, id, id);
            lemma_disjoint_push(t, empty, id, id);
            lemma_disjoint_push(p, empty, id, id);
            lemma_disjoint_push(v, empty, id, id);
        }
        db.auths.push(rec);
        proof {
            assert(ids_of(db.auths@) =~= Seq::<u64>::empty().push(id));
            assert(db.auths@ =~= seq![Auth { _id: id, flowlet_token: token }]);
        }
        Ok(copy)
    }

    /// `update` is unsupported for auth records and always fails.
    pub fn update(_input: EmptyData) -> (r: Result<Auth, AuthError>)
        ensures
            r matches Err(e) && e is UpdateNotSupported,
    {
        Err(AuthError::UpdateNotSupported)
    }

    /// `read`: a copy of the locally held auth record; a missing record is
    /// reported as not-found.
    pub fn read(db: &FlowletDb) -> (r: Result<Auth, AuthError>)
        ensures
            match r {
                Ok(rec) => db.auths@.len() > 0 && rec.eqv(db.auths@[0]),
                Err(e) => e is AuthNotFound && db.auths@.len() == 0,
            },
    {
        if db.auths.len() == 0 {
            Err(AuthError::AuthNotFound)
        } else {
            Ok(db.auths[0].duplicate())
        }
    }

    /// `remove` (logout): deletes the local record only — there is no remote
    /// mirroring, since the remote side issues sessions rather than storing
    /// them.  Succeeds exactly when a record was there.
    pub fn logout(db: &mut FlowletDb) -> (r: Result<bool, AuthError>)
        requires
            old(db).wf(),
        ensures
            final(db).wf(),
            final(db).commands == old(db).commands,
            final(db).tasks == old(db).tasks,
            final(db).projects == old(db).projects,
            final(db).variables == old(db).variables,
            final(db).next_id == old(db).next_id,
            final(db).auths@.len() == 0,
            match r {
                Ok(removed) => removed && old(db).auths@.len() > 0,
                Err(e) => e is AuthNotFound && old(db).auths@.len() == 0,
            },
    {
        if db.auths.len() == 0 {
            return Err(AuthError::AuthNotFound);
        }
        db.auths.clear();
        proof {
            assert(ids_of(db.auths@) =~= Seq::<u64>::empty());
        }
        Ok(true)
    }
}

} // verus!

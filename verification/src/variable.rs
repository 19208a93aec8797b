//! Stored key/value variables: the record, its wire rendering, and the
//! repository operations.  Reads and lists are local-only; writes follow the
//! same local-authoritative, remote-best-effort policy as every entity.

use vstd::prelude::*;
use vstd::string::*;

use crate::api_client::RemotePost;
use crate::flowlet_db::{
    find_first, find_index, first_match_at, ids_of, lemma_disjoint_push, lemma_disjoint_remove,
    lemma_id_push, lemma_id_remove, match_pred, no_match, collect_matching, remove_first, seq_eqv,
    FlowletDb, StoreDoc,
};
use crate::json;
use crate::query::{
    find_body, find_body_string, name_query, update_body, update_body_string, Query, QueryField,
    QueryValue,
};

verus! {

/// A named variable.  `name` is the lookup key.
pub struct Variable {
    pub _id: u64,
    pub name: String,
    pub value: String,
}

pub struct CreateVariableInput {
    pub name: String,
    pub value: String,
}

pub struct UpdateVariableInput {
    pub name: String,
    pub value: String,
}

pub struct RemoveVariableInput {
    pub name: String,
}

pub struct ReadVariableInput {
    pub query: Query,
}

pub struct ListVariableInput {
    pub query: Query,
}

#[derive(Debug)]
pub enum VariableApiError {
    CreateFailed,
    ReadFailed,
    UpdateFailed,
    DeleteFailed,
    NoVariablesFound,
    VariableNotFound,
}

impl StoreDoc for Variable {
    open spec fn doc_id(self) -> u64 {
        self._id
    }

    open spec fn q_matches(self, q: Query) -> bool {
        match q {
            Query::All => true,
            Query::Eq(f, v) => match f {
                QueryField::Id => v matches QueryValue::Num(n) && n == self._id,
                QueryField::Name => v matches QueryValue::Text(s) && s@ == self.name@,
                QueryField::Project => false,
                QueryField::Title => false,
            },
        }
    }

    open spec fn eqv(self, other: Self) -> bool {
        self == other
    }

    open spec fn doc_json(self) -> Seq<char> {
        variable_json(self)
    }

    fn render_json(&self) -> (r: String) {
        self.to_json()
    }

    fn matches_query(&self, q: &Query) -> (b: bool) {
        match q {
            Query::All => true,
            Query::Eq(f, v) => match (f, v) {
                (QueryField::Id, QueryValue::Num(n)) => *n == self._id,
                (QueryField::Name, QueryValue::Text(s)) => self.name == *s,
                _ => false,
            },
        }
    }

    fn duplicate(&self) -> (r: Self) {
        Variable { _id: self._id, name: self.name.clone(), value: self.value.clone() }
    }
}

/// The record's JSON rendering, field for field.
pub open spec fn variable_json(v: Variable) -> Seq<char> {
    "{\"_id\":"@ + json::dec_str(v._id as nat) + ",\"name\":"@ + json::quoted(v.name@)
        + ",\"value\":"@ + json::quoted(v.value@) + "}"@
}

impl Variable {
    /// Renders the record as the JSON document both stores hold.
    pub fn to_json(&self) -> (r: String)
        ensures
            r@ == variable_json(*self),
    {
        let mut out = String::from_str("{\"_id\":");
        out.append(json::u64_string(self._id).as_str());
        out.append(",\"name\":");
        out.append(json::quote(self.name.as_str()).as_str());
        out.append(",\"value\":");
        out.append(json::quote(self.value.as_str()).as_str());
        out.append("}");
        out
    }

    /// `create`: a fresh identifier is taken, the record is appended locally
    /// (authoritative), and the insert-one mirror call is handed back for a
    /// best-effort attempt.
    pub fn create(db: &mut FlowletDb, input: CreateVariableInput) -> (r: Result<
        (Variable, RemotePost),
        VariableApiError,
    >)
        requires
            old(db).wf(),
        ensures
            final(db).wf(),
            final(db).commands == old(db).commands,
            final(db).tasks == old(db).tasks,
            final(db).projects == old(db).projects,
            final(db).auths == old(db).auths,
            match r {
                Ok((rec, post)) => {
                    &&& final(db).variables@ == old(db).variables@.push(
                        Variable { _id: old(db).next_id, name: input.name, value: input.value },
                    )
                    &&& rec.eqv(final(db).variables@.last())
                    &&& rec._id == old(db).next_id
                    &&& !old(db).id_present(rec._id)
                    &&& final(db).next_id == old(db).next_id + 1
                    &&& post.path@ == "/insert-one/variable"@
                    &&& post.body@ == variable_json(final(db).variables@.last())
                },
                Err(e) => {
                    &&& e is CreateFailed
                    &&& *final(db) == *old(db)
                    &&& old(db).next_id == u64::MAX
                },
            },
    {
        let id = match db.take_fresh_id() {
            Some(id) => id,
            None => {
                return Err(VariableApiError::CreateFailed);
            },
        };
        let rec = Variable { _id: id, name: input.name, value: input.value };
        let copy = rec.duplicate();
        let body = rec.to_json();
        proof {
            let c = ids_of(old(db).commands@);
            let t = ids_of(old(db).tasks@);
            let p = ids_of(old(db).projects@);
            let v = ids_of(old(db).variables@);
            let a = ids_of(old(db).auths@);
            lemma_id_push(v, id, id, (id + 1) as u64);
            lemma_disjoint_push(c, v, id, id);
            lemma_disjoint_push(t, v, id, id);
            lemma_disjoint_push(p, v, id, id);
            lemma_disjoint_push(v, a, id, id);
        }
        db.variables.push(rec);
        proof {
            assert(ids_of(db.variables@) =~= ids_of(old(db).variables@).push(id));
        }
        let post = RemotePost { path: String::from_str("/insert-one/variable"), body };
        Ok((copy, post))
    }

    /// `update`: patches the first record whose name equals the lookup key
    /// and hands back the update-one mirror call; a missing record fails
    /// with not-found, leaves the store untouched and performs no remote
    /// call.
    pub fn update(db: &mut FlowletDb, input: UpdateVariableInput) -> (r: Result<
        (Variable, RemotePost),
        VariableApiError,
    >)
        requires
            old(db).wf(),
        ensures
            final(db).wf(),
            final(db).commands == old(db).commands,
            final(db).tasks == old(db).tasks,
            final(db).projects == old(db).projects,
            final(db).auths == old(db).auths,
            final(db).next_id == old(db).next_id,
            match r {
                Ok((rec, post)) => exists|i: int|
                    {
                        &&& #[trigger] first_match_at(old(db).variables@, name_query(input.name), i)
                        &&& final(db).variables@ == old(db).variables@.update(
                            i,
                            var_patched(old(db).variables@[i], input),
                        )
                        &&& rec.eqv(var_patched(old(db).variables@[i], input))
                        &&& post.path@ == "/update-one/variable"@
                        &&& post.body@ == update_body(
                            name_query(input.name),
                            variable_json(var_patched(old(db).variables@[i], input)),
                        )
                    },
                Err(e) => {
                    &&& e is VariableNotFound
                    &&& *final(db) == *old(db)
                    &&& no_match(old(db).variables@, name_query(input.name))
                },
            },
    {
        let q = Query::Eq(QueryField::Name, QueryValue::Text(input.name.clone()));
        let idx = match find_index(&db.variables, &q) {
            Some(i) => i,
            None => {
                return Err(VariableApiError::VariableNotFound);
            },
        };
        let old_rec = db.variables.remove(idx);
        let new_rec = Variable { _id: old_rec._id, name: input.name, value: input.value };
        let rec = new_rec.duplicate();
        let doc = new_rec.to_json();
        db.variables.insert(idx, new_rec);
        let post = RemotePost {
            path: String::from_str("/update-one/variable"),
            body: update_body_string(&q, doc.as_str()),
        };
        proof {
            let patched = var_patched(old(db).variables@[idx as int], input);
            assert(db.variables@ =~= old(db).variables@.update(idx as int, patched));
            assert(ids_of(db.variables@) =~= ids_of(old(db).variables@));
            assert(first_match_at(old(db).variables@, name_query(input.name), idx as int));
        }
        Ok((rec, post))
    }

    /// `read`: a copy of the first locally matching record, or nothing.
    /// Variables are read from the local store only.
    pub fn read(db: &FlowletDb, input: ReadVariableInput) -> (r: Option<Variable>)
        ensures
            match r {
                Some(rec) => exists|i: int|
                    #[trigger] first_match_at(db.variables@, input.query, i) && rec.eqv(
                        db.variables@[i],
                    ),
                None => no_match(db.variables@, input.query),
            },
    {
        find_first(&db.variables, &input.query)
    }

    /// `list`: copies of every locally matching record in store order — an
    /// empty match set is a successful empty list, never an error.
    pub fn list(db: &FlowletDb, input: ListVariableInput) -> (r: Vec<Variable>)
        ensures
            seq_eqv(r@, db.variables@.filter(match_pred(input.query))),
    {
        collect_matching(&db.variables, &input.query)
    }

    /// The delete-one call that `remove` asks the application to attempt
    /// first.
    pub fn remove_request(input: &RemoveVariableInput) -> (post: RemotePost)
        ensures
            post.path@ == "/delete-one/variable"@,
            post.body@ == find_body(name_query(input.name)),
    {
        let q = Query::Eq(QueryField::Name, QueryValue::Text(input.name.clone()));
        RemotePost { path: String::from_str("/delete-one/variable"), body: find_body_string(&q) }
    }

    /// `remove`: deletes the first record whose name equals the lookup key;
    /// the local delete alone decides success.
    pub fn remove(db: &mut FlowletDb, input: RemoveVariableInput) -> (r: Result<
        bool,
        VariableApiError,
    >)
        requires
            old(db).wf(),
        ensures
            final(db).wf(),
            final(db).commands == old(db).commands,
            final(db).tasks == old(db).tasks,
            final(db).projects == old(db).projects,
            final(db).auths == old(db).auths,
            final(db).next_id == old(db).next_id,
            match r {
                Ok(removed) => removed && exists|i: int|
                    #[trigger] first_match_at(old(db).variables@, name_query(input.name), i)
                        && final(db).variables@ == old(db).variables@.remove(i),
                Err(e) => {
                    &&& e is VariableNotFound
                    &&& final(db).variables@ == old(db).variables@
                    &&& no_match(old(db).variables@, name_query(input.name))
                },
            },
    {
        let q = Query::Eq(QueryField::Name, QueryValue::Text(input.name.clone()));
        if remove_first(&mut db.variables, &q) {
            proof {
                let v = ids_of(old(db).variables@);
                let i = choose|i: int|
                    #[trigger] first_match_at(old(db).variables@, q, i) && db.variables@ == old(
                        db,
                    ).variables@.remove(i);
                assert(ids_of(db.variables@) =~= v.remove(i));
                lemma_id_remove(v, i, old(db).next_id);
                lemma_disjoint_remove(ids_of(old(db).commands@), v, i);
                lemma_disjoint_remove(ids_of(old(db).tasks@), v, i);
                lemma_disjoint_remove(ids_of(old(db).projects@), v, i);
                lemma_disjoint_remove(v, ids_of(old(db).auths@), i);
                assert(q == name_query(input.name));
                assert(first_match_at(old(db).variables@, name_query(input.name), i)
                    && db.variables@ == old(db).variables@.remove(i));
            }
            Ok(true)
        } else {
            Err(VariableApiError::VariableNotFound)
        }
    }

    /// The decision behind saving a shell command's captured output: an
    /// existing variable of that name is updated, a missing one created.
    pub fn upsert(db: &mut FlowletDb, name: String, value: String) -> (r: Result<
        (Variable, RemotePost),
        VariableApiError,
    >)
        requires
            old(db).wf(),
        ensures
            final(db).wf(),
            final(db).commands == old(db).commands,
            final(db).tasks == old(db).tasks,
            final(db).projects == old(db).projects,
            final(db).auths == old(db).auths,
            match r {
                Ok((rec, post)) => {
                    if no_match(old(db).variables@, name_query(name)) {
                        &&& final(db).variables@ == old(db).variables@.push(
                            Variable { _id: old(db).next_id, name, value },
                        )
                        &&& rec.eqv(final(db).variables@.last())
                        &&& post.path@ == "/insert-one/variable"@
                    } else {
                        exists|i: int|
                            {
                                &&& #[trigger] first_match_at(
                                    old(db).variables@,
                                    name_query(name),
                                    i,
                                )
                                &&& final(db).variables@ == old(db).variables@.update(
                                    i,
                                    var_patched(
                                        old(db).variables@[i],
                                        UpdateVariableInput { name, value },
                                    ),
                                )
                                &&& post.path@ == "/update-one/variable"@
                            }
                    }
                },
                Err(e) => {
                    &&& e is CreateFailed
                    &&& *final(db) == *old(db)
                    &&& old(db).next_id == u64::MAX
                    &&& no_match(old(db).variables@, name_query(name))
                },
            },
    {
        let q = Query::Eq(QueryField::Name, QueryValue::Text(name.clone()));
        let exists_local = match find_index(&db.variables, &q) {
            Some(_) => true,
            None => false,
        };
        if exists_local {
            match Self::update(db, UpdateVariableInput { name, value }) {
                Ok(ok) => Ok(ok),
                Err(_) => {
                    proof {
                        assert(false);
                    }
                    Err(VariableApiError::CreateFailed)
                },
            }
        } else {
            Self::create(db, CreateVariableInput { name, value })
        }
    }
}

/// The record an update leaves behind: name and value from the patch, the
/// identifier untouched.
pub open spec fn var_patched(v: Variable, input: UpdateVariableInput) -> Variable {
    Variable { _id: v._id, name: input.name, value: input.value }
}

} // verus!

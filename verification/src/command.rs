//! Saved shell commands: the record, its wire rendering, and the dual-store
//! repository operations.  Local writes are authoritative; each successful
//! write hands back the one remote POST that mirrors it, for the application
//! to attempt best-effort.

use vstd::prelude::*;
use vstd::string::*;

use crate::api_client::{ListOutcome, ReadOutcome, RemotePost};
use crate::flowlet_db::{
    dup_opt_string, find_first, find_index, first_match_at, ids_of, lemma_disjoint_push,
    lemma_disjoint_remove, lemma_id_push, lemma_id_remove, match_pred, no_match, collect_matching,
    remove_first, seq_eqv, FlowletDb, StoreDoc,
};
use crate::json;
use crate::query::{
    find_body, find_body_string, name_query, update_body, update_body_string, Query, QueryField,
    QueryValue,
};

verus! {

/// A saved shell command.  `name` is the lookup key; the store does not
/// enforce its uniqueness, and name-based reads return the first match.
pub struct Command {
    pub _id: u64,
    pub name: String,
    pub cmd: String,
    pub project: Option<String>,
}

pub struct CreateCommandInput {
    pub name: String,
    pub cmd: String,
    pub project: Option<String>,
}

pub struct UpdateCommandInput {
    pub name: String,
    pub cmd: String,
}

pub struct RemoveCommandInput {
    pub name: String,
}

pub struct ReadCommandInput {
    pub query: Query,
    pub remote: bool,
}

pub struct ListCommandInput {
    pub query: Query,
    pub remote: bool,
}

#[derive(Debug)]
pub enum CommandApiError {
    SaveCommandFailed,
    ReadCommandFailed,
    NoCommandsFound,
    CommandNotFound,
    UpdateRemoteFailed,
    DeleteCommandFailed,
}

impl StoreDoc for Command {
    open spec fn doc_id(self) -> u64 {
        self._id
    }

    open spec fn q_matches(self, q: Query) -> bool {
        match q {
            Query::All => true,
            Query::Eq(f, v) => match f {
                QueryField::Id => v matches QueryValue::Num(n) && n == self._id,
                QueryField::Name => v matches QueryValue::Text(s) && s@ == self.name@,
                QueryField::Project => v matches QueryValue::Text(s) && self.project matches Some(
                    p,
                ) && p@ == s@,
                QueryField::Title => false,
            },
        }
    }

    open spec fn eqv(self, other: Self) -> bool {
        self == other
    }

    open spec fn doc_json(self) -> Seq<char> {
        command_json(self)
    }

    fn render_json(&self) -> (r: String) {
        self.to_json()
    }

    fn matches_query(&self, q: &Query) -> (b: bool) {
        match q {
            Query::All => true,
            Query::Eq(f, v) => match (f, v) {
                (QueryField::Id, QueryValue::Num(n)) => *n == self._id,
                (QueryField::Name, QueryValue::Text(s)) => self.name == *s,
                (QueryField::Project, QueryValue::Text(s)) => match &self.project {
                    Some(p) => *p == *s,
                    None => false,
                },
                _ => false,
            },
        }
    }

    fn duplicate(&self) -> (r: Self) {
        Command {
            _id: self._id,
            name: self.name.clone(),
            cmd: self.cmd.clone(),
            project: dup_opt_string(&self.project),
        }
    }
}

/// The record an update leaves behind: name and shell text from the patch,
/// identifier and project untouched.
pub open spec fn cmd_patched(c: Command, input: UpdateCommandInput) -> Command {
    Command { _id: c._id, name: input.name, cmd: input.cmd, project: c.project }
}

/// The record's JSON rendering, field for field.
pub open spec fn command_json(c: Command) -> Seq<char> {
    "{\"_id\":"@ + json::dec_str(c._id as nat) + ",\"name\":"@ + json::quoted(c.name@)
        + ",\"cmd\":"@ + json::quoted(c.cmd@) + ",\"project\":"@ + json::opt_string_json(c.project)
        + "}"@
}

impl Command {
    /// Renders the record as the JSON document both stores hold.
    pub fn to_json(&self) -> (r: String)
        ensures
            r@ == command_json(*self),
    {
        let mut out = String::from_str("{\"_id\":");
        out.append(json::u64_string(self._id).as_str());
        out.append(",\"name\":");
        out.append(json::quote(self.name.as_str()).as_str());
        out.append(",\"cmd\":");
        out.append(json::quote(self.cmd.as_str()).as_str());
        out.append(",\"project\":");
        out.append(json::opt_string_value(&self.project).as_str());
        out.append("}");
        out
    }

    /// `create`: a fresh identifier is taken, the record is appended to the
    /// local collection (authoritative), and the insert-one mirror call is
    /// handed back for a best-effort attempt.  Only an exhausted identifier
    /// counter fails, leaving the store untouched.
    pub fn create(db: &mut FlowletDb, input: CreateCommandInput) -> (r: Result<
        (Command, RemotePost),
        CommandApiError,
    >)
        requires
            old(db).wf(),
        ensures
            final(db).wf(),
            final(db).tasks == old(db).tasks,
            final(db).projects == old(db).projects,
            final(db).variables == old(db).variables,
            final(db).auths == old(db).auths,
            match r {
                Ok((rec, post)) => {
                    &&& final(db).commands@ == old(db).commands@.push(
                        Command {
                            _id: old(db).next_id,
                            name: input.name,
                            cmd: input.cmd,
                            project: input.project,
                        },
                    )
                    &&& rec.eqv(final(db).commands@.last())
                    &&& rec._id == old(db).next_id
                    &&& !old(db).id_present(rec._id)
                    &&& final(db).next_id == old(db).next_id + 1
                    &&& post.path@ == "/insert-one/command"@
                    &&& post.body@ == command_json(final(db).commands@.last())
                },
                Err(e) => {
                    &&& e is SaveCommandFailed
                    &&& *final(db) == *old(db)
                    &&& old(db).next_id == u64::MAX
                },
            },
    {
        let id = match db.take_fresh_id() {
            Some(id) => id,
            None => {
                return Err(CommandApiError::SaveCommandFailed);
            },
        };
        let rec = Command { _id: id, name: input.name, cmd: input.cmd, project: input.project };
        let copy = rec.duplicate();
        let body = rec.to_json();
        proof {
            let c = ids_of(old(db).commands@);
            let t = ids_of(old(db).tasks@);
            let p = ids_of(old(db).projects@);
            let v = ids_of(old(db).variables@);
            let a = ids_of(old(db).auths@);
            lemma_id_push(c, id, id, (id + 1) as u64);
            lemma_disjoint_push(c, t, id, id);
            lemma_disjoint_push(c, p, id, id);
            lemma_disjoint_push(c, v, id, id);
            lemma_disjoint_push(c, a, id, id);
        }
        db.commands.push(rec);
        proof {
            assert(ids_of(db.commands@) =~= ids_of(old(db).commands@).push(id));
        }
        let post = RemotePost { path: String::from_str("/insert-one/command"), body };
        Ok((copy, post))
    }

    /// `update`: the first record whose name equals the lookup key is patched
    /// in place (local result is authoritative), and the update-one mirror
    /// call is handed back.  A missing record fails with not-found, leaves
    /// the store untouched, and — by the shape of the result — performs no
    /// remote call at all.
    pub fn update(db: &mut FlowletDb, input: UpdateCommandInput) -> (r: Result<
        (Command, RemotePost),
        CommandApiError,
    >)
        requires
            old(db).wf(),
        ensures
            final(db).wf(),
            final(db).tasks == old(db).tasks,
            final(db).projects == old(db).projects,
            final(db).variables == old(db).variables,
            final(db).auths == old(db).auths,
            final(db).next_id == old(db).next_id,
            match r {
                Ok((rec, post)) => exists|i: int|
                    {
                        &&& #[trigger] first_match_at(old(db).commands@, name_query(input.name), i)
                        &&& final(db).commands@ == old(db).commands@.update(
                            i,
                            cmd_patched(old(db).commands@[i], input),
                        )
                        &&& rec.eqv(cmd_patched(old(db).commands@[i], input))
                        &&& post.path@ == "/update-one/command"@
                        &&& post.body@ == update_body(
                            name_query(input.name),
                            command_json(cmd_patched(old(db).commands@[i], input)),
                        )
                    },
                Err(e) => {
                    &&& e is CommandNotFound
                    &&& *final(db) == *old(db)
                    &&& no_match(old(db).commands@, name_query(input.name))
                },
            },
    {
        let q = Query::Eq(QueryField::Name, QueryValue::Text(input.name.clone()));
        let idx = match find_index(&db.commands, &q) {
            Some(i) => i,
            None => {
                return Err(CommandApiError::CommandNotFound);
            },
        };
        let old_rec = db.commands.remove(idx);
        let new_rec = Command {
            _id: old_rec._id,
            name: input.name,
            cmd: input.cmd,
            project: old_rec.project,
        };
        let rec = new_rec.duplicate();
        let doc = new_rec.to_json();
        db.commands.insert(idx, new_rec);
        let post = RemotePost {
            path: String::from_str("/update-one/command"),
            body: update_body_string(&q, doc.as_str()),
        };
        proof {
            let patched = cmd_patched(old(db).commands@[idx as int], input);
            assert(db.commands@ =~= old(db).commands@.update(idx as int, patched));
            assert(ids_of(db.commands@) =~= ids_of(old(db).commands@));
            assert(first_match_at(old(db).commands@, name_query(input.name), idx as int));
        }
        Ok((rec, post))
    }

    /// `read`: with the remote flag, exactly the find-one call to perform —
    /// the local store is bypassed; without it, a copy of the first locally
    /// matching record, or nothing.
    pub fn read(db: &FlowletDb, input: ReadCommandInput) -> (r: ReadOutcome<Command>)
        ensures
            match r {
                ReadOutcome::Remote(post) => {
                    &&& input.remote
                    &&& post.path@ == "/find-one/command"@
                    &&& post.body@ == find_body(input.query)
                },
                ReadOutcome::Local(opt) => {
                    &&& !input.remote
                    &&& match opt {
                        Some(rec) => exists|i: int|
                            #[trigger] first_match_at(db.commands@, input.query, i) && rec.eqv(
                                db.commands@[i],
                            ),
                        None => no_match(db.commands@, input.query),
                    }
                },
            },
    {
        if input.remote {
            ReadOutcome::Remote(
                RemotePost {
                    path: String::from_str("/find-one/command"),
                    body: find_body_string(&input.query),
                },
            )
        } else {
            ReadOutcome::Local(find_first(&db.commands, &input.query))
        }
    }

    /// `list`: with the remote flag, exactly the find-many call to perform;
    /// without it, copies of every locally matching record in store order —
    /// an empty match set is a successful empty list, never an error.
    pub fn list(db: &FlowletDb, input: ListCommandInput) -> (r: ListOutcome<Command>)
        ensures
            match r {
                ListOutcome::Remote(post) => {
                    &&& input.remote
                    &&& post.path@ == "/find-many/command"@
                    &&& post.body@ == find_body(input.query)
                },
                ListOutcome::Local(items) => {
                    &&& !input.remote
                    &&& seq_eqv(items@, db.commands@.filter(match_pred(input.query)))
                },
            },
    {
        if input.remote {
            ListOutcome::Remote(
                RemotePost {
                    path: String::from_str("/find-many/command"),
                    body: find_body_string(&input.query),
                },
            )
        } else {
            ListOutcome::Local(collect_matching(&db.commands, &input.query))
        }
    }

    /// The delete-one call that `remove` asks the application to attempt
    /// first, before the authoritative local delete.
    pub fn remove_request(input: &RemoveCommandInput) -> (post: RemotePost)
        ensures
            post.path@ == "/delete-one/command"@,
            post.body@ == find_body(name_query(input.name)),
    {
        let q = Query::Eq(QueryField::Name, QueryValue::Text(input.name.clone()));
        RemotePost { path: String::from_str("/delete-one/command"), body: find_body_string(&q) }
    }

    /// `remove`: deletes the first record whose name equals the lookup key —
    /// the local delete alone decides success.  A missing record fails with
    /// not-found and leaves the collection unchanged.
    pub fn remove(db: &mut FlowletDb, input: RemoveCommandInput) -> (r: Result<
        bool,
        CommandApiError,
    >)
        requires
            old(db).wf(),
        ensures
            final(db).wf(),
            final(db).tasks == old(db).tasks,
            final(db).projects == old(db).projects,
            final(db).variables == old(db).variables,
            final(db).auths == old(db).auths,
            final(db).next_id == old(db).next_id,
            match r {
                Ok(removed) => removed && exists|i: int|
                    #[trigger] first_match_at(old(db).commands@, name_query(input.name), i)
                        && final(db).commands@ == old(db).commands@.remove(i),
                Err(e) => {
                    &&& e is CommandNotFound
                    &&& final(db).commands@ == old(db).commands@
                    &&& no_match(old(db).commands@, name_query(input.name))
                },
            },
    {
        let q = Query::Eq(QueryField::Name, QueryValue::Text(input.name.clone()));
        if remove_first(&mut db.commands, &q) {
            proof {
                let c = ids_of(old(db).commands@);
                let i = choose|i: int|
                    #[trigger] first_match_at(old(db).commands@, q, i) && db.commands@ == old(
                        db,
                    ).commands@.remove(i);
                assert(ids_of(db.commands@) =~= c.remove(i));
                lemma_id_remove(c, i, old(db).next_id);
                lemma_disjoint_remove(c, ids_of(old(db).tasks@), i);
                lemma_disjoint_remove(c, ids_of(old(db).projects@), i);
                lemma_disjoint_remove(c, ids_of(old(db).variables@), i);
                lemma_disjoint_remove(c, ids_of(old(db).auths@), i);
                assert(q == name_query(input.name));
                assert(first_match_at(old(db).commands@, name_query(input.name), i)
                    && db.commands@ == old(db).commands@.remove(i));
            }
            Ok(true)
        } else {
            Err(CommandApiError::CommandNotFound)
        }
    }

    /// `save`: upsert by name.  An existing record is updated; a missing one
    /// is created with no owning project — either way the matching mirror
    /// call is handed back.
    pub fn save(db: &mut FlowletDb, name: String, cmd: String) -> (r: Result<
        (Command, RemotePost),
        CommandApiError,
    >)
        requires
            old(db).wf(),
        ensures
            final(db).wf(),
            final(db).tasks == old(db).tasks,
            final(db).projects == old(db).projects,
            final(db).variables == old(db).variables,
            final(db).auths == old(db).auths,
            match r {
                Ok((rec, post)) => {
                    if no_match(old(db).commands@, name_query(name)) {
                        &&& final(db).commands@ == old(db).commands@.push(
                            Command { _id: old(db).next_id, name, cmd, project: None },
                        )
                        &&& rec.eqv(final(db).commands@.last())
                        &&& post.path@ == "/insert-one/command"@
                        &&& post.body@ == command_json(final(db).commands@.last())
                    } else {
                        exists|i: int|
                            {
                                &&& #[trigger] first_match_at(old(db).commands@, name_query(name), i)
                                &&& final(db).commands@ == old(db).commands@.update(
                                    i,
                                    cmd_patched(
                                        old(db).commands@[i],
                                        UpdateCommandInput { name, cmd },
                                    ),
                                )
                                &&& rec.eqv(
                                    cmd_patched(
                                        old(db).commands@[i],
                                        UpdateCommandInput { name, cmd },
                                    ),
                                )
                                &&& post.path@ == "/update-one/command"@
                            }
                    }
                },
                Err(e) => {
                    &&& e is SaveCommandFailed
                    &&& *final(db) == *old(db)
                    &&& old(db).next_id == u64::MAX
                    &&& no_match(old(db).commands@, name_query(name))
                },
            },
    {
        let q = Query::Eq(QueryField::Name, QueryValue::Text(name.clone()));
        let exists_local = match find_index(&db.commands, &q) {
            Some(_) => true,
            None => false,
        };
        if exists_local {
            match Self::update(db, UpdateCommandInput { name, cmd }) {
                Ok(ok) => Ok(ok),
                Err(_) => {
                    proof {
                        assert(false);
                    }
                    Err(CommandApiError::SaveCommandFailed)
                },
            }
        } else {
            Self::create(db, CreateCommandInput { name, cmd, project: None })
        }
    }

    /// The decision `push` takes once the remote's view is known: a command
    /// already present remotely is updated (locally and via the mirror), a
    /// missing one goes through plain create — which deliberately inserts a
    /// second local record rather than upserting.
    pub fn push_apply(db: &mut FlowletDb, name: String, cmd: String, remote_exists: bool) -> (r:
        Result<(Command, RemotePost), CommandApiError>)
        requires
            old(db).wf(),
        ensures
            final(db).wf(),
            final(db).tasks == old(db).tasks,
            final(db).projects == old(db).projects,
            final(db).variables == old(db).variables,
            final(db).auths == old(db).auths,
            match r {
                Ok((rec, post)) => {
                    if remote_exists {
                        exists|i: int|
                            {
                                &&& #[trigger] first_match_at(old(db).commands@, name_query(name), i)
                                &&& final(db).commands@ == old(db).commands@.update(
                                    i,
                                    cmd_patched(
                                        old(db).commands@[i],
                                        UpdateCommandInput { name, cmd },
                                    ),
                                )
                                &&& post.path@ == "/update-one/command"@
                            }
                    } else {
                        &&& final(db).commands@ == old(db).commands@.push(
                            Command { _id: old(db).next_id, name, cmd, project: None },
                        )
                        &&& post.path@ == "/insert-one/command"@
                    }
                },
                Err(e) => *final(db) == *old(db) && (if remote_exists {
                    e is CommandNotFound && no_match(old(db).commands@, name_query(name))
                } else {
                    e is SaveCommandFailed && old(db).next_id == u64::MAX
                }),
            },
    {
        if remote_exists {
            match Self::update(db, UpdateCommandInput { name, cmd }) {
                Ok(ok) => Ok(ok),
                Err(_) => Err(CommandApiError::CommandNotFound),
            }
        } else {
            Self::create(db, CreateCommandInput { name, cmd, project: None })
        }
    }
}

} // verus!

//! Projects: the record, its wire rendering, the repository operations, and
//! the `flowlet.toml` project marker the application writes next to a new
//! project.

use vstd::prelude::*;
use vstd::string::*;

use crate::api_client::{ListOutcome, ReadOutcome, RemotePost};
use crate::flowlet_db::{
    dup_opt_string, find_first, find_index, first_match_at, ids_of, lemma_disjoint_push,
    lemma_disjoint_remove, lemma_id_push, lemma_id_remove, match_pred, no_match, collect_matching,
    remove_first, seq_eqv, FlowletDb, StoreDoc,
};
use crate::json;
use crate::query::{
    find_body, find_body_string, name_query, update_body, update_body_string, Query, QueryField,
    QueryValue,
};

verus! {

/// A project.  `name` is the lookup key.
pub struct Project {
    pub _id: u64,
    pub name: String,
    pub description: Option<String>,
}

pub struct CreateProjectInput {
    pub name: String,
    pub description: Option<String>,
}

pub struct UpdateProjectInput {
    pub name: String,
    pub description: Option<String>,
}

pub struct ReadProjectInput {
    pub query: Query,
    pub remote: bool,
}

pub struct ListProjectInput {
    pub query: Query,
    pub remote: bool,
}

pub struct RemoveProjectInput {
    pub name: String,
}

#[derive(Debug)]
pub enum ProjectApiError {
    SaveFailed,
    UpdateFailed,
    ProjectNotFound,
    DeleteFailed,
}

impl StoreDoc for Project {
    open spec fn doc_id(self) -> u64 {
        self._id
    }

    open spec fn q_matches(self, q: Query) -> bool {
        match q {
            Query::All => true,
            Query::Eq(f, v) => match f {
                QueryField::Id => v matches QueryValue::Num(n) && n == self._id,
                QueryField::Name => v matches QueryValue::Text(s) && s@ == self.name@,
                QueryField::Project => false,
                QueryField::Title => false,
            },
        }
    }

    open spec fn eqv(self, other: Self) -> bool {
        self == other
    }

    open spec fn doc_json(self) -> Seq<char> {
        project_json(self)
    }

    fn render_json(&self) -> (r: String) {
        self.to_json()
    }

    fn matches_query(&self, q: &Query) -> (b: bool) {
        match q {
            Query::All => true,
            Query::Eq(f, v) => match (f, v) {
                (QueryField::Id, QueryValue::Num(n)) => *n == self._id,
                (QueryField::Name, QueryValue::Text(s)) => self.name == *s,
                _ => false,
            },
        }
    }

    fn duplicate(&self) -> (r: Self) {
        Project {
            _id: self._id,
            name: self.name.clone(),
            description: dup_opt_string(&self.description),
        }
    }
}

/// The record's JSON rendering, field for field.
pub open spec fn project_json(p: Project) -> Seq<char> {
    "{\"_id\":"@ + json::dec_str(p._id as nat) + ",\"name\":"@ + json::quoted(p.name@)
        + ",\"description\":"@ + json::opt_string_json(p.description) + "}"@
}

impl Project {
    /// Renders the record as the JSON document both stores hold.
    pub fn to_json(&self) -> (r: String)
        ensures
            r@ == project_json(*self),
    {
        let mut out = String::from_str("{\"_id\":");
        out.append(json::u64_string(self._id).as_str());
        out.append(",\"name\":");
        out.append(json::quote(self.name.as_str()).as_str());
        out.append(",\"description\":");
        out.append(json::opt_string_value(&self.description).as_str());
        out.append("}");
        out
    }

    /// `create`: a fresh identifier is taken, the record is appended locally
    /// (authoritative), and the insert-one mirror call is handed back for a
    /// best-effort attempt.
    pub fn create(db: &mut FlowletDb, input: CreateProjectInput) -> (r: Result<
        (Project, RemotePost),
        ProjectApiError,
    >)
        requires
            old(db).wf(),
        ensures
            final(db).wf(),
            final(db).commands == old(db).commands,
            final(db).tasks == old(db).tasks,
            final(db).variables == old(db).variables,
            final(db).auths == old(db).auths,
            match r {
                Ok((rec, post)) => {
                    &&& final(db).projects@ == old(db).projects@.push(
                        Project {
                            _id: old(db).next_id,
                            name: input.name,
                            description: input.description,
                        },
                    )
                    &&& rec.eqv(final(db).projects@.last())
                    &&& rec._id == old(db).next_id
                    &&& !old(db).id_present(rec._id)
                    &&& final(db).next_id == old(db).next_id + 1
                    &&& post.path@ == "/insert-one/project"@
                    &&& post.body@ == project_json(final(db).projects@.last())
                },
                Err(e) => {
                    &&& e is SaveFailed
                    &&& *final(db) == *old(db)
                    &&& old(db).next_id == u64::MAX
                },
            },
    {
        let id = match db.take_fresh_id() {
            Some(id) => id,
            None => {
                return Err(ProjectApiError::SaveFailed);
            },
        };
        let rec = Project { _id: id, name: input.name, description: input.description };
        let copy = rec.duplicate();
        let body = rec.to_json();
        proof {
            let c = ids_of(old(db).commands@);
            let t = ids_of(old(db).tasks@);
            let p = ids_of(old(db).projects@);
            let v = ids_of(old(db).variables@);
            let a = ids_of(old(db).auths@);
            lemma_id_push(p, id, id, (id + 1) as u64);
            lemma_disjoint_push(c, p, id, id);
            lemma_disjoint_push(t, p, id, id);
            lemma_disjoint_push(p, v, id, id);
            lemma_disjoint_push(p, a, id, id);
        }
        db.projects.push(rec);
        proof {
            assert(ids_of(db.projects@) =~= ids_of(old(db).projects@).push(id));
        }
        let post = RemotePost { path: String::from_str("/insert-one/project"), body };
        Ok((copy, post))
    }

    /// `update`: patches the first record whose name equals the lookup key —
    /// the description only where the patch carries one — and hands back the
    /// update-one mirror call.  A missing record fails with not-found,
    /// leaves the store untouched and performs no remote call.
    pub fn update(db: &mut FlowletDb, input: UpdateProjectInput) -> (r: Result<
        (Project, RemotePost),
        ProjectApiError,
    >)
        requires
            old(db).wf(),
        ensures
            final(db).wf(),
            final(db).commands == old(db).commands,
            final(db).tasks == old(db).tasks,
            final(db).variables == old(db).variables,
            final(db).auths == old(db).auths,
            final(db).next_id == old(db).next_id,
            match r {
                Ok((rec, post)) => exists|i: int|
                    {
                        &&& #[trigger] first_match_at(old(db).projects@, name_query(input.name), i)
                        &&& final(db).projects@ == old(db).projects@.update(
                            i,
                            project_patched(old(db).projects@[i], input),
                        )
                        &&& rec.eqv(project_patched(old(db).projects@[i], input))
                        &&& post.path@ == "/update-one/project"@
                        &&& post.body@ == update_body(
                            name_query(input.name),
                            project_json(project_patched(old(db).projects@[i], input)),
                        )
                    },
                Err(e) => {
                    &&& e is ProjectNotFound
                    &&& *final(db) == *old(db)
                    &&& no_match(old(db).projects@, name_query(input.name))
                },
            },
    {
        let q = Query::Eq(QueryField::Name, QueryValue::Text(input.name.clone()));
        let idx = match find_index(&db.projects, &q) {
            Some(i) => i,
            None => {
                return Err(ProjectApiError::ProjectNotFound);
            },
        };
        let old_rec = db.projects.remove(idx);
        let new_rec = Project {
            _id: old_rec._id,
            name: input.name,
            description: match input.description {
                Some(d) => Some(d),
                None => old_rec.description,
            },
        };
        let rec = new_rec.duplicate();
        let doc = new_rec.to_json();
        db.projects.insert(idx, new_rec);
        let post = RemotePost {
            path: String::from_str("/update-one/project"),
            body: update_body_string(&q, doc.as_str()),
        };
        proof {
            let patched = project_patched(old(db).projects@[idx as int], input);
            assert(db.projects@ =~= old(db).projects@.update(idx as int, patched));
            assert(ids_of(db.projects@) =~= ids_of(old(db).projects@));
            assert(first_match_at(old(db).projects@, name_query(input.name), idx as int));
        }
        Ok((rec, post))
    }

    /// `read`: with the remote flag, exactly the find-one call to perform;
    /// without it, a copy of the first locally matching record, or nothing.
    pub fn read(db: &FlowletDb, input: ReadProjectInput) -> (r: ReadOutcome<Project>)
        ensures
            match r {
                ReadOutcome::Remote(post) => {
                    &&& input.remote
                    &&& post.path@ == "/find-one/project"@
                    &&& post.body@ == find_body(input.query)
                },
                ReadOutcome::Local(opt) => {
                    &&& !input.remote
                    &&& match opt {
                        Some(rec) => exists|i: int|
                            #[trigger] first_match_at(db.projects@, input.query, i) && rec.eqv(
                                db.projects@[i],
                            ),
                        None => no_match(db.projects@, input.query),
                    }
                },
            },
    {
        if input.remote {
            ReadOutcome::Remote(
                RemotePost {
                    path: String::from_str("/find-one/project"),
                    body: find_body_string(&input.query),
                },
            )
        } else {
            ReadOutcome::Local(find_first(&db.projects, &input.query))
        }
    }

    /// `list`: with the remote flag, exactly the find-many call to perform;
    /// without it, copies of every locally matching record — an empty match
    /// set is a successful empty list, never an error.
    pub fn list(db: &FlowletDb, input: ListProjectInput) -> (r: ListOutcome<Project>)
        ensures
            match r {
                ListOutcome::Remote(post) => {
                    &&& input.remote
                    &&& post.path@ == "/find-many/project"@
                    &&& post.body@ == find_body(input.query)
                },
                ListOutcome::Local(items) => {
                    &&& !input.remote
                    &&& seq_eqv(items@, db.projects@.filter(match_pred(input.query)))
                },
            },
    {
        if input.remote {
            ListOutcome::Remote(
                RemotePost {
                    path: String::from_str("/find-many/project"),
                    body: find_body_string(&input.query),
                },
            )
        } else {
            ListOutcome::Local(collect_matching(&db.projects, &input.query))
        }
    }

    /// The delete-one call that `remove` asks the application to attempt
    /// first.
    pub fn remove_request(input: &RemoveProjectInput) -> (post: RemotePost)
        ensures
            post.path@ == "/delete-one/project"@,
            post.body@ == find_body(name_query(input.name)),
    {
        let q = Query::Eq(QueryField::Name, QueryValue::Text(input.name.clone()));
        RemotePost { path: String::from_str("/delete-one/project"), body: find_body_string(&q) }
    }

    /// `remove`: deletes the first record whose name equals the lookup key;
    /// the local delete alone decides success.
    pub fn remove(db: &mut FlowletDb, input: RemoveProjectInput) -> (r: Result<
        bool,
        ProjectApiError,
    >)
        requires
            old(db).wf(),
        ensures
            final(db).wf(),
            final(db).commands == old(db).commands,
            final(db).tasks == old(db).tasks,
            final(db).variables == old(db).variables,
            final(db).auths == old(db).auths,
            final(db).next_id == old(db).next_id,
            match r {
                Ok(removed) => removed && exists|i: int|
                    #[trigger] first_match_at(old(db).projects@, name_query(input.name), i)
                        && final(db).projects@ == old(db).projects@.remove(i),
                Err(e) => {
                    &&& e is ProjectNotFound
                    &&& final(db).projects@ == old(db).projects@
                    &&& no_match(old(db).projects@, name_query(input.name))
                },
            },
    {
        let q = Query::Eq(QueryField::Name, QueryValue::Text(input.name.clone()));
        if remove_first(&mut db.projects, &q) {
            proof {
                let p = ids_of(old(db).projects@);
                let i = choose|i: int|
                    #[trigger] first_match_at(old(db).projects@, q, i) && db.projects@ == old(
                        db,
                    ).projects@.remove(i);
                assert(ids_of(db.projects@) =~= p.remove(i));
                lemma_id_remove(p, i, old(db).next_id);
                lemma_disjoint_remove(ids_of(old(db).commands@), p, i);
                lemma_disjoint_remove(ids_of(old(db).tasks@), p, i);
                lemma_disjoint_remove(p, ids_of(old(db).variables@), i);
                lemma_disjoint_remove(p, ids_of(old(db).auths@), i);
                assert(q == name_query(input.name));
                assert(first_match_at(old(db).projects@, name_query(input.name), i)
                    && db.projects@ == old(db).projects@.remove(i));
            }
            Ok(true)
        } else {
            Err(ProjectApiError::ProjectNotFound)
        }
    }
}

/// The record an update leaves behind: the name from the patch, the
/// description only where the patch carries one, the identifier untouched.
pub open spec fn project_patched(p: Project, input: UpdateProjectInput) -> Project {
    Project {
        _id: p._id,
        name: input.name,
        description: match input.description {
            Some(d) => Some(d),
            None => p.description,
        },
    }
}

/// The text of the `flowlet.toml` marker written beside a fresh project: a
/// `[project]` table carrying name, the description where one was given, and
/// the chosen environment.
pub open spec fn config_toml(name: Seq<char>, description: Option<String>, environment: Seq<char>) -> Seq<char> {
    "[project]\nname = "@ + json::quoted(name) + "\n"@ + (match description {
        Option::None => Seq::<char>::empty(),
        Option::Some(d) => "description = "@ + json::quoted(d@) + "\n"@,
    }) + "environment = "@ + json::quoted(environment) + "\n"@
}

/// Renders the `flowlet.toml` project marker.
pub fn render_config_toml(name: &str, description: &Option<String>, environment: &str) -> (r:
    String)
    ensures
        r@ == config_toml(name@, *description, environment@),
{
    let mut out = String::from_str("[project]\nname = ");
    out.append(json::quote(name).as_str());
    out.append("\n");
    match description {
        Option::None => {},
        Option::Some(d) => {
            out.append("description = ");
            out.append(json::quote(d.as_str()).as_str());
            out.append("\n");
        },
    }
    out.append("environment = ");
    out.append(json::quote(environment).as_str());
    out.append("\n");
    out
}

} // verus!

//! Tasks and their milestones: the records, their wire rendering, and the
//! repository operations.  `title` is the lookup key; milestones are owned by
//! their task and have no lifecycle of their own.

use vstd::prelude::*;
use vstd::string::*;

use crate::api_client::{ListOutcome, ReadOutcome, RemotePost};
use crate::date::{date_wire, Date};
use crate::flowlet_db::{
    dup_opt_string, dup_string_vec, find_first, find_index, first_match_at, ids_of,
    lemma_disjoint_push, lemma_disjoint_remove, lemma_id_push, lemma_id_remove, match_pred,
    no_match, collect_matching, remove_first, seq_eqv, FlowletDb, StoreDoc,
};
use crate::json;
use crate::query::{
    find_body, find_body_string, title_query, update_body, update_body_string, Query, QueryField,
    QueryValue,
};

verus! {

/// Where a task stands.
#[derive(Clone, Copy, PartialEq, Eq, Structural, Debug)]
pub enum TaskStatus {
    Todo,
    InProgress,
    Done,
}

/// A step towards a task, owned by it.
pub struct Milestone {
    pub name: String,
    pub description: String,
    pub due_date: Option<Date>,
}

/// A task.  `title` is the lookup key.
pub struct Task {
    pub _id: u64,
    pub title: String,
    pub description: Option<String>,
    pub status: TaskStatus,
    pub project: Option<String>,
    pub due_date: Option<Date>,
    pub tags: Vec<String>,
    pub milestones: Vec<Milestone>,
}

pub struct CreateTaskInput {
    pub title: String,
    pub description: Option<String>,
    pub project: Option<String>,
    pub due_date: Option<Date>,
    pub tags: Vec<String>,
    pub milestones: Vec<Milestone>,
}

pub struct UpdateTaskInput {
    pub title: String,
    pub status: Option<TaskStatus>,
    pub description: Option<String>,
    pub due_date: Option<Date>,
    pub tags: Option<Vec<String>>,
    pub milestones: Option<Vec<Milestone>>,
}

pub struct RemoveTaskInput {
    pub title: String,
}

pub struct ReadTaskInput {
    pub query: Query,
    pub remote: bool,
}

pub struct ListTaskInput {
    pub query: Query,
    pub remote: bool,
}

#[derive(Debug)]
pub enum TaskApiError {
    CreateFailed,
    ReadFailed,
    UpdateFailed,
    DeleteFailed,
    NoTasksFound,
    TaskNotFound,
}

impl TaskStatus {
    /// The status as shown to people.
    pub fn label(&self) -> (r: &'static str)
        ensures
            *self is Todo ==> r@ == "Todo"@,
            *self is InProgress ==> r@ == "In Progress"@,
            *self is Done ==> r@ == "Done"@,
    {
        match self {
            TaskStatus::Todo => "Todo",
            TaskStatus::InProgress => "In Progress",
            TaskStatus::Done => "Done",
        }
    }
}

/// The status as a JSON value, in the snake-case the wire uses.
pub open spec fn status_json(st: TaskStatus) -> Seq<char> {
    match st {
        TaskStatus::Todo => "\"todo\""@,
        TaskStatus::InProgress => "\"in_progress\""@,
        TaskStatus::Done => "\"done\""@,
    }
}

/// An optional date as a JSON value: `null` or the quoted `YYYY-MM-DD` form.
pub open spec fn opt_date_json(o: Option<Date>) -> Seq<char> {
    match o {
        Option::None => "null"@,
        Option::Some(d) => "\""@ + date_wire(d) + "\""@,
    }
}

/// One milestone as a JSON document.
pub open spec fn milestone_json(m: Milestone) -> Seq<char> {
    "{\"name\":"@ + json::quoted(m.name@) + ",\"description\":"@ + json::quoted(m.description@)
        + ",\"due_date\":"@ + opt_date_json(m.due_date) + "}"@
}

/// The comma-separated elements of a JSON array of strings.
pub open spec fn tags_json(s: Seq<String>) -> Seq<char>
    decreases s.len(),
{
    if s.len() == 0 {
        Seq::empty()
    } else if s.len() == 1 {
        json::quoted(s[0]@)
    } else {
        tags_json(s.drop_last()) + ","@ + json::quoted(s.last()@)
    }
}

/// The comma-separated elements of a JSON array of milestones.
pub open spec fn milestones_json(s: Seq<Milestone>) -> Seq<char>
    decreases s.len(),
{
    if s.len() == 0 {
        Seq::empty()
    } else if s.len() == 1 {
        milestone_json(s[0])
    } else {
        milestones_json(s.drop_last()) + ","@ + milestone_json(s.last())
    }
}

/// The record's JSON rendering, field for field.
pub open spec fn task_json(t: Task) -> Seq<char> {
    "{\"_id\":"@ + json::dec_str(t._id as nat) + ",\"title\":"@ + json::quoted(t.title@)
        + ",\"description\":"@ + json::opt_string_json(t.description) + ",\"status\":"@
        + status_json(t.status) + ",\"project\":"@ + json::opt_string_json(t.project)
        + ",\"due_date\":"@ + opt_date_json(t.due_date) + ",\"tags\":["@ + tags_json(t.tags@)
        + "],\"milestones\":["@ + milestones_json(t.milestones@) + "]}"@
}

impl Milestone {
    /// An equal copy.
    pub fn duplicate(&self) -> (r: Self)
        ensures
            r == *self,
    {
        Milestone {
            name: self.name.clone(),
            description: self.description.clone(),
            due_date: match &self.due_date {
                Some(d) => Some(*d),
                None => None,
            },
        }
    }

    /// Renders the milestone as a JSON document.
    pub fn to_json(&self) -> (r: String)
        ensures
            r@ == milestone_json(*self),
    {
        let mut out = String::from_str("{\"name\":");
        out.append(json::quote(self.name.as_str()).as_str());
        out.append(",\"description\":");
        out.append(json::quote(self.description.as_str()).as_str());
        out.append(",\"due_date\":");
        out.append(opt_date_value(&self.due_date).as_str());
        out.append("}");
        out
    }
}

/// Renders an optional date as a JSON value.
pub fn opt_date_value(o: &Option<Date>) -> (r: String)
    ensures
        r@ == opt_date_json(*o),
{
    match o {
        Option::None => String::from_str("null"),
        Option::Some(d) => {
            let mut out = String::from_str("\"");
            out.append(crate::date::format_date(d).as_str());
            out.append("\"");
            out
        },
    }
}

/// Renders the elements of a JSON array of strings.
fn tags_value(v: &Vec<String>) -> (r: String)
    ensures
        r@ == tags_json(v@),
{
    let n = v.len();
    let mut out = String::new();
    let mut i: usize = 0;
    while i < n
        invariant
            i <= n,
            n == v@.len(),
            out@ == tags_json(v@.take(i as int)),
        decreases n - i,
    {
        if i > 0 {
            out.append(",");
        }
        out.append(json::quote(v[i].as_str()).as_str());
        proof {
            let cur = v@.take(i + 1int);
            assert(cur.drop_last() =~= v@.take(i as int));
            assert(cur.last() == v@[i as int]);
            if i == 0 {
                assert(out@ =~= tags_json(cur));
            }
        }
        i = i + 1;
    }
    proof {
        assert(v@.take(n as int) =~= v@);
    }
    out
}

/// Renders the elements of a JSON array of milestones.
fn milestones_value(v: &Vec<Milestone>) -> (r: String)
    ensures
        r@ == milestones_json(v@),
{
    let n = v.len();
    let mut out = String::new();
    let mut i: usize = 0;
    while i < n
        invariant
            i <= n,
            n == v@.len(),
            out@ == milestones_json(v@.take(i as int)),
        decreases n - i,
    {
        if i > 0 {
            out.append(",");
        }
        out.append(v[i].to_json().as_str());
        proof {
            let cur = v@.take(i + 1int);
            assert(cur.drop_last() =~= v@.take(i as int));
            assert(cur.last() == v@[i as int]);
            if i == 0 {
                assert(out@ =~= milestones_json(cur));
            }
        }
        i = i + 1;
    }
    proof {
        assert(v@.take(n as int) =~= v@);
    }
    out
}

/// An equal copy of a vector of milestones.
pub fn dup_milestones(v: &Vec<Milestone>) -> (r: Vec<Milestone>)
    ensures
        r@ == v@,
{
    let n = v.len();
    let mut out: Vec<Milestone> = Vec::new();
    let mut i: usize = 0;
    while i < n
        invariant
            i <= n,
            n == v@.len(),
            out@ =~= v@.take(i as int),
        decreases n - i,
    {
        out.push(v[i].duplicate());
        i = i + 1;
    }
    proof {
        assert(v@.take(n as int) =~= v@);
    }
    out
}

impl StoreDoc for Task {
    open spec fn doc_id(self) -> u64 {
        self._id
    }

    open spec fn q_matches(self, q: Query) -> bool {
        match q {
            Query::All => true,
            Query::Eq(f, v) => match f {
                QueryField::Id => v matches QueryValue::Num(n) && n == self._id,
                QueryField::Title => v matches QueryValue::Text(s) && s@ == self.title@,
                QueryField::Project => v matches QueryValue::Text(s) && self.project matches Some(
                    p,
                ) && p@ == s@,
                QueryField::Name => false,
            },
        }
    }

    open spec fn eqv(self, other: Self) -> bool {
        &&& self._id == other._id
        &&& self.title == other.title
        &&& self.description == other.description
        &&& self.status == other.status
        &&& self.project == other.project
        &&& self.due_date == other.due_date
        &&& self.tags@ == other.tags@
        &&& self.milestones@ == other.milestones@
    }

    open spec fn doc_json(self) -> Seq<char> {
        task_json(self)
    }

    fn render_json(&self) -> (r: String) {
        self.to_json()
    }

    fn matches_query(&self, q: &Query) -> (b: bool) {
        match q {
            Query::All => true,
            Query::Eq(f, v) => match (f, v) {
                (QueryField::Id, QueryValue::Num(n)) => *n == self._id,
                (QueryField::Title, QueryValue::Text(s)) => self.title == *s,
                (QueryField::Project, QueryValue::Text(s)) => match &self.project {
                    Some(p) => *p == *s,
                    None => false,
                },
                _ => false,
            },
        }
    }

    fn duplicate(&self) -> (r: Self) {
        Task {
            _id: self._id,
            title: self.title.clone(),
            description: dup_opt_string(&self.description),
            status: self.status,
            project: dup_opt_string(&self.project),
            due_date: match &self.due_date {
                Some(d) => Some(*d),
                None => None,
            },
            tags: dup_string_vec(&self.tags),
            milestones: dup_milestones(&self.milestones),
        }
    }
}

impl Task {
    /// Renders the record as the JSON document both stores hold.
    pub fn to_json(&self) -> (r: String)
        ensures
            r@ == task_json(*self),
    {
        let mut out = String::from_str("{\"_id\":");
        out.append(json::u64_string(self._id).as_str());
        out.append(",\"title\":");
        out.append(json::quote(self.title.as_str()).as_str());
        out.append(",\"description\":");
        out.append(json::opt_string_value(&self.description).as_str());
        out.append(",\"status\":");
        out.append(match self.status {
            TaskStatus::Todo => "\"todo\"",
            TaskStatus::InProgress => "\"in_progress\"",
            TaskStatus::Done => "\"done\"",
        });
        out.append(",\"project\":");
        out.append(json::opt_string_value(&self.project).as_str());
        out.append(",\"due_date\":");
        out.append(opt_date_value(&self.due_date).as_str());
        out.append(",\"tags\":[");
        out.append(tags_value(&self.tags).as_str());
        out.append("],\"milestones\":[");
        out.append(milestones_value(&self.milestones).as_str());
        out.append("]}");
        out
    }

    /// `create`: a fresh identifier is taken, the record is appended locally
    /// (authoritative) with status `Todo`, and the insert-one mirror call is
    /// handed back for a best-effort attempt.
    pub fn create(db: &mut FlowletDb, input: CreateTaskInput) -> (r: Result<
        (Task, RemotePost),
        TaskApiError,
    >)
        requires
            old(db).wf(),
        ensures
            final(db).wf(),
            final(db).commands == old(db).commands,
            final(db).projects == old(db).projects,
            final(db).variables == old(db).variables,
            final(db).auths == old(db).auths,
            match r {
                Ok((rec, post)) => {
                    &&& final(db).tasks@ == old(db).tasks@.push(
                        Task {
                            _id: old(db).next_id,
                            title: input.title,
                            description: input.description,
                            status: TaskStatus::Todo,
                            project: input.project,
                            due_date: input.due_date,
                            tags: input.tags,
                            milestones: input.milestones,
                        },
                    )
                    &&& rec.eqv(final(db).tasks@.last())
                    &&& rec._id == old(db).next_id
                    &&& !old(db).id_present(rec._id)
                    &&& final(db).next_id == old(db).next_id + 1
                    &&& post.path@ == "/insert-one/task"@
                    &&& post.body@ == task_json(final(db).tasks@.last())
                },
                Err(e) => {
                    &&& e is CreateFailed
                    &&& *final(db) == *old(db)
                    &&& old(db).next_id == u64::MAX
                },
            },
    {
        let id = match db.take_fresh_id() {
            Some(id) => id,
            None => {
                return Err(TaskApiError::CreateFailed);
            },
        };
        let rec = Task {
            _id: id,
            title: input.title,
            description: input.description,
            status: TaskStatus::Todo,
            project: input.project,
            due_date: input.due_date,
            tags: input.tags,
            milestones: input.milestones,
        };
        let copy = rec.duplicate();
        let body = rec.to_json();
        proof {
            let c = ids_of(old(db).commands@);
            let t = ids_of(old(db).tasks@);
            let p = ids_of(old(db).projects@);
            let v = ids_of(old(db).variables@);
            let a = ids_of(old(db).auths@);
            lemma_id_push(t, id, id, (id + 1) as u64);
            lemma_disjoint_push(c, t, id, id);
            lemma_disjoint_push(t, p, id, id);
            lemma_disjoint_push(t, v, id, id);
            lemma_disjoint_push(t, a, id, id);
        }
        db.tasks.push(rec);
        proof {
            assert(ids_of(db.tasks@) =~= ids_of(old(db).tasks@).push(id));
        }
        let post = RemotePost { path: String::from_str("/insert-one/task"), body };
        Ok((copy, post))
    }

    /// `update`: patches the first record whose title equals the lookup key —
    /// optional patch fields replace only where present — and hands back the
    /// update-one mirror call.  A missing record fails with not-found,
    /// leaves the store untouched and performs no remote call.
    pub fn update(db: &mut FlowletDb, input: UpdateTaskInput) -> (r: Result<
        (Task, RemotePost),
        TaskApiError,
    >)
        requires
            old(db).wf(),
        ensures
            final(db).wf(),
            final(db).commands == old(db).commands,
            final(db).projects == old(db).projects,
            final(db).variables == old(db).variables,
            final(db).auths == old(db).auths,
            final(db).next_id == old(db).next_id,
            match r {
                Ok((rec, post)) => exists|i: int|
                    {
                        &&& #[trigger] first_match_at(old(db).tasks@, title_query(input.title), i)
                        &&& final(db).tasks@ == old(db).tasks@.update(
                            i,
                            task_patched(old(db).tasks@[i], input),
                        )
                        &&& rec.eqv(task_patched(old(db).tasks@[i], input))
                        &&& post.path@ == "/update-one/task"@
                        &&& post.body@ == update_body(
                            title_query(input.title),
                            task_json(task_patched(old(db).tasks@[i], input)),
                        )
                    },
                Err(e) => {
                    &&& e is TaskNotFound
                    &&& *final(db) == *old(db)
                    &&& no_match(old(db).tasks@, title_query(input.title))
                },
            },
    {
        let q = Query::Eq(QueryField::Title, QueryValue::Text(input.title.clone()));
        let idx = match find_index(&db.tasks, &q) {
            Some(i) => i,
            None => {
                return Err(TaskApiError::TaskNotFound);
            },
        };
        let old_rec = db.tasks.remove(idx);
        let new_rec = Task {
            _id: old_rec._id,
            title: input.title,
            description: match input.description {
                Some(d) => Some(d),
                None => old_rec.description,
            },
            status: match input.status {
                Some(s) => s,
                None => old_rec.status,
            },
            project: old_rec.project,
            due_date: match input.due_date {
                Some(d) => Some(d),
                None => old_rec.due_date,
            },
            tags: match input.tags {
                Some(t) => t,
                None => old_rec.tags,
            },
            milestones: match input.milestones {
                Some(m) => m,
                None => old_rec.milestones,
            },
        };
        let rec = new_rec.duplicate();
        let doc = new_rec.to_json();
        db.tasks.insert(idx, new_rec);
        let post = RemotePost {
            path: String::from_str("/update-one/task"),
            body: update_body_string(&q, doc.as_str()),
        };
        proof {
            let patched = task_patched(old(db).tasks@[idx as int], input);
            assert(db.tasks@ =~= old(db).tasks@.update(idx as int, patched));
            assert(ids_of(db.tasks@) =~= ids_of(old(db).tasks@));
            assert(first_match_at(old(db).tasks@, title_query(input.title), idx as int));
        }
        Ok((rec, post))
    }

    /// `read`: with the remote flag, exactly the find-one call to perform;
    /// without it, a copy of the first locally matching record, or nothing.
    pub fn read(db: &FlowletDb, input: ReadTaskInput) -> (r: ReadOutcome<Task>)
        ensures
            match r {
                ReadOutcome::Remote(post) => {
                    &&& input.remote
                    &&& post.path@ == "/find-one/task"@
                    &&& post.body@ == find_body(input.query)
                },
                ReadOutcome::Local(opt) => {
                    &&& !input.remote
                    &&& match opt {
                        Some(rec) => exists|i: int|
                            #[trigger] first_match_at(db.tasks@, input.query, i) && rec.eqv(
                                db.tasks@[i],
                            ),
                        None => no_match(db.tasks@, input.query),
                    }
                },
            },
    {
        if input.remote {
            ReadOutcome::Remote(
                RemotePost {
                    path: String::from_str("/find-one/task"),
                    body: find_body_string(&input.query),
                },
            )
        } else {
            ReadOutcome::Local(find_first(&db.tasks, &input.query))
        }
    }

    /// `list`: with the remote flag, exactly the find-many call to perform;
    /// without it, copies of every locally matching record — an empty match
    /// set is a successful empty list, never an error.
    pub fn list(db: &FlowletDb, input: ListTaskInput) -> (r: ListOutcome<Task>)
        ensures
            match r {
                ListOutcome::Remote(post) => {
                    &&& input.remote
                    &&& post.path@ == "/find-many/task"@
                    &&& post.body@ == find_body(input.query)
                },
                ListOutcome::Local(items) => {
                    &&& !input.remote
                    &&& seq_eqv(items@, db.tasks@.filter(match_pred(input.query)))
                },
            },
    {
        if input.remote {
            ListOutcome::Remote(
                RemotePost {
                    path: String::from_str("/find-many/task"),
                    body: find_body_string(&input.query),
                },
            )
        } else {
            ListOutcome::Local(collect_matching(&db.tasks, &input.query))
        }
    }

    /// The delete-one call that `remove` asks the application to attempt
    /// first.
    pub fn remove_request(input: &RemoveTaskInput) -> (post: RemotePost)
        ensures
            post.path@ == "/delete-one/task"@,
            post.body@ == find_body(title_query(input.title)),
    {
        let q = Query::Eq(QueryField::Title, QueryValue::Text(input.title.clone()));
        RemotePost { path: String::from_str("/delete-one/task"), body: find_body_string(&q) }
    }

    /// `remove`: deletes the first record whose title equals the lookup key;
    /// the local delete alone decides success.
    pub fn remove(db: &mut FlowletDb, input: RemoveTaskInput) -> (r: Result<bool, TaskApiError>)
        requires
            old(db).wf(),
        ensures
            final(db).wf(),
            final(db).commands == old(db).commands,
            final(db).projects == old(db).projects,
            final(db).variables == old(db).variables,
            final(db).auths == old(db).auths,
            final(db).next_id == old(db).next_id,
            match r {
                Ok(removed) => removed && exists|i: int|
                    #[trigger] first_match_at(old(db).tasks@, title_query(input.title), i)
                        && final(db).tasks@ == old(db).tasks@.remove(i),
                Err(e) => {
                    &&& e is TaskNotFound
                    &&& final(db).tasks@ == old(db).tasks@
                    &&& no_match(old(db).tasks@, title_query(input.title))
                },
            },
    {
        let q = Query::Eq(QueryField::Title, QueryValue::Text(input.title.clone()));
        if remove_first(&mut db.tasks, &q) {
            proof {
                let t = ids_of(old(db).tasks@);
                let i = choose|i: int|
                    #[trigger] first_match_at(old(db).tasks@, q, i) && db.tasks@ == old(
                        db,
                    ).tasks@.remove(i);
                assert(ids_of(db.tasks@) =~= t.remove(i));
                lemma_id_remove(t, i, old(db).next_id);
                lemma_disjoint_remove(ids_of(old(db).commands@), t, i);
                lemma_disjoint_remove(t, ids_of(old(db).projects@), i);
                lemma_disjoint_remove(t, ids_of(old(db).variables@), i);
                lemma_disjoint_remove(t, ids_of(old(db).auths@), i);
                assert(q == title_query(input.title));
                assert(first_match_at(old(db).tasks@, title_query(input.title), i) && db.tasks@
                    == old(db).tasks@.remove(i));
            }
            Ok(true)
        } else {
            Err(TaskApiError::TaskNotFound)
        }
    }
}

/// An optional date as shown to people: a dash when absent.
pub open spec fn opt_date_text(o: Option<Date>) -> Seq<char> {
    match o {
        Option::None => "-"@,
        Option::Some(d) => date_wire(d),
    }
}

/// The tag list as shown to people, comma-separated.
pub open spec fn joined_tags(s: Seq<String>) -> Seq<char>
    decreases s.len(),
{
    if s.len() == 0 {
        Seq::empty()
    } else if s.len() == 1 {
        s[0]@
    } else {
        joined_tags(s.drop_last()) + ", "@ + s.last()@
    }
}

/// A milestone's headline in the task detail view: its one-based number,
/// name and due date.
pub open spec fn milestone_head(m: Milestone, idx: nat) -> Seq<char> {
    json::dec_str(idx) + ". "@ + m.name@ + " (Due: "@ + opt_date_text(m.due_date) + ")"@
}

/// A milestone's indented description line.
pub open spec fn milestone_detail(m: Milestone) -> Seq<char> {
    "    "@ + m.description@
}

/// The two detail-view lines of every milestone, in order.
pub open spec fn milestones_lines(s: Seq<Milestone>) -> Seq<Seq<char>>
    decreases s.len(),
{
    if s.len() == 0 {
        Seq::empty()
    } else {
        milestones_lines(s.drop_last()) + seq![
            milestone_head(s.last(), s.len() as nat),
            milestone_detail(s.last()),
        ]
    }
}

impl Task {
    /// The tag list as shown in the task detail view.
    pub fn tags_joined(&self) -> (r: String)
        ensures
            r@ == joined_tags(self.tags@),
    {
        let v = &self.tags;
        let n = v.len();
        let mut out = String::new();
        let mut i: usize = 0;
        while i < n
            invariant
                i <= n,
                n == v@.len(),
                out@ == joined_tags(v@.take(i as int)),
            decreases n - i,
        {
            if i > 0 {
                out.append(", ");
            }
            out.append(v[i].as_str());
            proof {
                let cur = v@.take(i + 1int);
                assert(cur.drop_last() =~= v@.take(i as int));
                assert(cur.last() == v@[i as int]);
                if i == 0 {
                    assert(out@ =~= joined_tags(cur));
                }
            }
            i = i + 1;
        }
        proof {
            assert(v@.take(n as int) =~= v@);
        }
        out
    }

    /// The numbered milestone lines of the task detail view: a headline and
    /// an indented description per milestone.
    pub fn milestone_lines(&self) -> (r: Vec<String>)
        ensures
            r.deep_view() == milestones_lines(self.milestones@),
    {
        let v = &self.milestones;
        let n = v.len();
        let mut out: Vec<String> = Vec::new();
        let mut i: usize = 0;
        while i < n
            invariant
                i <= n,
                n == v@.len(),
                out.deep_view() == milestones_lines(v@.take(i as int)),
            decreases n - i,
        {
            let m = &v[i];
            let mut head = json::u64_string((i as u64) + 1);
            head.append(". ");
            head.append(m.name.as_str());
            head.append(" (Due: ");
            match &m.due_date {
                Option::None => head.append("-"),
                Option::Some(d) => head.append(crate::date::format_date(d).as_str()),
            }
            head.append(")");
            let mut detail = String::from_str("    ");
            detail.append(m.description.as_str());
            out.push(head);
            out.push(detail);
            proof {
                let cur = v@.take(i + 1int);
                assert(cur.drop_last() =~= v@.take(i as int));
                assert(cur.last() == v@[i as int]);
                assert(out.deep_view() =~= milestones_lines(cur));
            }
            i = i + 1;
        }
        proof {
            assert(v@.take(n as int) =~= v@);
        }
        out
    }
}

/// The record an update leaves behind: the title from the patch, every
/// optional patch field replacing its counterpart only where present, the
/// identifier and owning project untouched.
pub open spec fn task_patched(t: Task, input: UpdateTaskInput) -> Task {
    Task {
        _id: t._id,
        title: input.title,
        description: match input.description {
            Some(d) => Some(d),
            None => t.description,
        },
        status: match input.status {
            Some(s) => s,
            None => t.status,
        },
        project: t.project,
        due_date: match input.due_date {
            Some(d) => Some(d),
            None => t.due_date,
        },
        tags: match input.tags {
            Some(g) => g,
            None => t.tags,
        },
        milestones: match input.milestones {
            Some(m) => m,
            None => t.milestones,
        },
    }
}

} // verus!

//! The local half of the dual store: one in-memory document collection per
//! entity type, with a monotonic identifier counter.  The surrounding
//! application persists the whole store as one JSON file (rendered by
//! [`FlowletDb::to_json`]) and rebuilds it at startup through
//! [`FlowletDb::assemble`]; everything in between is verified against the
//! invariant that every identifier ever assigned is fresh.

use vstd::prelude::*;
use vstd::seq_lib::*;
use vstd::string::*;

use crate::auth::Auth;
use crate::command::Command;
use crate::project::Project;
use crate::query::Query;
use crate::task::Task;
use crate::variable::Variable;

verus! {

/// What can go wrong while bringing the store up: the persisted file could
/// not be opened or did not hold a well-formed store, or the home directory
/// (where the file lives) could not be determined.
#[derive(Debug)]
pub enum FlowletDbError {
    InstanceCreationFailed,
    HomeDirAccessDenied,
}

/// A record held by one of the store's collections: it carries an identifier,
/// can decide whether a query matches it, and can produce an equal copy of
/// itself.
pub trait StoreDoc: Sized {
    /// The record's identifier.
    spec fn doc_id(self) -> u64;

    /// Whether the query matches this record.
    spec fn q_matches(self, q: Query) -> bool;

    /// Record equality: structural, except that vector-valued fields are
    /// compared by their contents.
    spec fn eqv(self, other: Self) -> bool;

    /// The record's JSON rendering.
    spec fn doc_json(self) -> Seq<char>;

    /// Decides [`StoreDoc::q_matches`].
    fn matches_query(&self, q: &Query) -> (b: bool)
        ensures
            b == self.q_matches(*q),
    ;

    /// An equal copy of the record.
    fn duplicate(&self) -> (r: Self)
        ensures
            r.eqv(*self),
    ;

    /// Renders [`StoreDoc::doc_json`].
    fn render_json(&self) -> (r: String)
        ensures
            r@ == self.doc_json(),
    ;
}

/// Pointwise record equality of two sequences.
pub open spec fn seq_eqv<R: StoreDoc>(a: Seq<R>, b: Seq<R>) -> bool {
    a.len() == b.len() && forall|i: int| 0 <= i < a.len() ==> #[trigger] a[i].eqv(b[i])
}

/// No record of `s` matches `q`.
pub open spec fn no_match<R: StoreDoc>(s: Seq<R>, q: Query) -> bool {
    forall|k: int| 0 <= k < s.len() ==> !(#[trigger] s[k].q_matches(q))
}

/// `s[i]` is the first record of `s` matching `q`.
pub open spec fn first_match_at<R: StoreDoc>(s: Seq<R>, q: Query, i: int) -> bool {
    &&& 0 <= i < s.len()
    &&& s[i].q_matches(q)
    &&& forall|k: int| 0 <= k < i ==> !(#[trigger] s[k].q_matches(q))
}

/// The predicate a query induces on records.
pub open spec fn match_pred<R: StoreDoc>(q: Query) -> spec_fn(R) -> bool {
    |x: R| x.q_matches(q)
}

/// The position of the first record matching `q`, if any.
pub fn find_index<R: StoreDoc>(v: &Vec<R>, q: &Query) -> (r: Option<usize>)
    ensures
        match r {
            Some(i) => first_match_at(v@, *q, i as int),
            None => no_match(v@, *q),
        },
{
    let n = v.len();
    let mut i: usize = 0;
    while i < n
        invariant
            i <= n,
            n == v@.len(),
            forall|k: int| 0 <= k < i ==> !(#[trigger] v@[k].q_matches(*q)),
        decreases n - i,
    {
        if v[i].matches_query(q) {
            return Some(i);
        }
        i = i + 1;
    }
    None
}

/// A copy of the first record matching `q`, if any.
pub fn find_first<R: StoreDoc>(v: &Vec<R>, q: &Query) -> (r: Option<R>)
    ensures
        match r {
            Some(rec) => exists|i: int| #[trigger] first_match_at(v@, *q, i) && rec.eqv(v@[i]),
            None => no_match(v@, *q),
        },
{
    match find_index(v, q) {
        Some(i) => {
            let rec = v[i].duplicate();
            proof {
                assert(first_match_at(v@, *q, i as int) && rec.eqv(v@[i as int]));
            }
            Some(rec)
        },
        None => None,
    }
}

/// Copies of all records matching `q`, in store order.
pub fn collect_matching<R: StoreDoc>(v: &Vec<R>, q: &Query) -> (r: Vec<R>)
    ensures
        seq_eqv(r@, v@.filter(match_pred(*q))),
{
    let n = v.len();
    let mut out: Vec<R> = Vec::new();
    let mut i: usize = 0;
    while i < n
        invariant
            i <= n,
            n == v@.len(),
            seq_eqv(out@, v@.take(i as int).filter(match_pred(*q))),
        decreases n - i,
    {
        if v[i].matches_query(q) {
            out.push(v[i].duplicate());
        }
        proof {
            let pre = v@.take(i as int);
            assert(v@.take(i + 1int) =~= pre.push(v@[i as int]));
            pre.lemma_filter_push(v@[i as int], match_pred(*q));
        }
        i = i + 1;
    }
    proof {
        assert(v@.take(n as int) =~= v@);
    }
    out
}

/// Removes the first record matching `q`; reports whether one was there.
pub fn remove_first<R: StoreDoc>(v: &mut Vec<R>, q: &Query) -> (r: bool)
    ensures
        r ==> exists|i: int|
            #[trigger] first_match_at(old(v)@, *q, i) && final(v)@ == old(v)@.remove(i),
        !r ==> final(v)@ == old(v)@ && no_match(old(v)@, *q),
{
    match find_index(v, q) {
        Some(i) => {
            v.remove(i);
            proof {
                assert(first_match_at(old(v)@, *q, i as int) && v@ == old(v)@.remove(i as int));
            }
            true
        },
        None => false,
    }
}

/// Create then read by lookup key: a record appended under a key that no
/// existing record matches is the collection's first match for that key, so
/// a local read returns exactly the record created.  The remote mirror's
/// outcome cannot disturb this: no mirror call touches the local store.
pub proof fn lemma_create_then_read<R: StoreDoc>(pre: Seq<R>, rec: R, q: Query)
    requires
        no_match(pre, q),
        rec.q_matches(q),
    ensures
        first_match_at(pre.push(rec), q, pre.len() as int),
        pre.push(rec)[pre.len() as int] == rec,
{
}

/// An empty match set on an empty collection: listing an empty store yields
/// an empty sequence, not an error.
pub proof fn lemma_list_of_empty<R: StoreDoc>(s: Seq<R>, q: Query)
    requires
        s.len() == 0,
    ensures
        s.filter(match_pred(q)) =~= Seq::<R>::empty(),
{
    s.lemma_filter_len(match_pred(q));
}

/// An equal copy of an optional string.
pub fn dup_opt_string(o: &Option<String>) -> (r: Option<String>)
    ensures
        r == *o,
{
    match o {
        Option::None => None,
        Option::Some(s) => Some(s.clone()),
    }
}

/// An equal copy of a vector of strings.
pub fn dup_string_vec(v: &Vec<String>) -> (r: Vec<String>)
    ensures
        r@ == v@,
{
    let n = v.len();
    let mut out: Vec<String> = Vec::new();
    let mut i: usize = 0;
    while i < n
        invariant
            i <= n,
            n == v@.len(),
            out@ =~= v@.take(i as int),
        decreases n - i,
    {
        out.push(v[i].clone());
        i = i + 1;
    }
    proof {
        assert(v@.take(n as int) =~= v@);
    }
    out
}

/// All identifiers of a sequence of records.
pub open spec fn ids_of<R: StoreDoc>(s: Seq<R>) -> Seq<u64> {
    s.map_values(|r: R| r.doc_id())
}

/// No two positions hold the same value.
pub open spec fn distinct(s: Seq<u64>) -> bool {
    forall|i: int, j: int| #![trigger s[i], s[j]] 0 <= i < j < s.len() ==> s[i] != s[j]
}

/// Every value is below the bound.
pub open spec fn below(s: Seq<u64>, b: u64) -> bool {
    forall|i: int| 0 <= i < s.len() ==> #[trigger] s[i] < b
}

/// No value occurs in both sequences.
pub open spec fn disjoint(s: Seq<u64>, t: Seq<u64>) -> bool {
    forall|i: int, j: int| #![trigger s[i], t[j]] 0 <= i < s.len() && 0 <= j < t.len() ==> s[i]
        != t[j]
}

/// Appending a value at least the old bound keeps distinctness, and the
/// result stays below any bound above the new value.
pub proof fn lemma_id_push(s: Seq<u64>, x: u64, b: u64, nb: u64)
    requires
        distinct(s),
        below(s, b),
        b <= x,
        x < nb,
    ensures
        distinct(s.push(x)),
        below(s.push(x), nb),
{
}

/// Removing a position keeps distinctness and bounds.
pub proof fn lemma_id_remove(s: Seq<u64>, i: int, b: u64)
    requires
        distinct(s),
        below(s, b),
        0 <= i < s.len(),
    ensures
        distinct(s.remove(i)),
        below(s.remove(i), b),
{
}

/// A fresh value keeps two sequences disjoint, whichever side it joins.
pub proof fn lemma_disjoint_push(s: Seq<u64>, t: Seq<u64>, x: u64, b: u64)
    requires
        disjoint(s, t),
        below(s, b),
        below(t, b),
        b <= x,
    ensures
        disjoint(s.push(x), t),
        disjoint(s, t.push(x)),
{
}

/// Removing a position on either side keeps two sequences disjoint.
pub proof fn lemma_disjoint_remove(s: Seq<u64>, t: Seq<u64>, i: int)
    ensures
        disjoint(s, t) && 0 <= i < s.len() ==> disjoint(s.remove(i), t),
        disjoint(s, t) && 0 <= i < t.len() ==> disjoint(s, t.remove(i)),
{
}

/// The local store: one collection per entity type, and the counter from
/// which every new identifier is taken.
pub struct FlowletDb {
    pub commands: Vec<Command>,
    pub tasks: Vec<Task>,
    pub projects: Vec<Project>,
    pub variables: Vec<Variable>,
    pub auths: Vec<Auth>,
    pub next_id: u64,
}

impl FlowletDb {
    /// Identifiers are globally unique across the five collections, and all
    /// below the counter — so the counter always yields a fresh one.
    pub open spec fn wf(self) -> bool {
        let c = ids_of(self.commands@);
        let t = ids_of(self.tasks@);
        let p = ids_of(self.projects@);
        let v = ids_of(self.variables@);
        let a = ids_of(self.auths@);
        &&& distinct(c) && distinct(t) && distinct(p) && distinct(v) && distinct(a)
        &&& below(c, self.next_id) && below(t, self.next_id) && below(p, self.next_id) && below(
            v,
            self.next_id,
        ) && below(a, self.next_id)
        &&& disjoint(c, t) && disjoint(c, p) && disjoint(c, v) && disjoint(c, a)
        &&& disjoint(t, p) && disjoint(t, v) && disjoint(t, a)
        &&& disjoint(p, v) && disjoint(p, a)
        &&& disjoint(v, a)
    }

    /// Whether some record of some collection carries this identifier.
    pub open spec fn id_present(self, id: u64) -> bool {
        ||| ids_of(self.commands@).contains(id)
        ||| ids_of(self.tasks@).contains(id)
        ||| ids_of(self.projects@).contains(id)
        ||| ids_of(self.variables@).contains(id)
        ||| ids_of(self.auths@).contains(id)
    }

    /// A fresh, empty store.
    pub fn new() -> (r: FlowletDb)
        ensures
            r.wf(),
            r.commands@.len() == 0,
            r.tasks@.len() == 0,
            r.projects@.len() == 0,
            r.variables@.len() == 0,
            r.auths@.len() == 0,
            r.next_id == 0,
    {
        FlowletDb {
            commands: Vec::new(),
            tasks: Vec::new(),
            projects: Vec::new(),
            variables: Vec::new(),
            auths: Vec::new(),
            next_id: 0,
        }
    }

    /// Takes the next fresh identifier, or reports that the counter is
    /// exhausted.  The identifier handed out was present nowhere in the
    /// store, and remains below the new counter value.
    pub fn take_fresh_id(&mut self) -> (r: Option<u64>)
        requires
            old(self).wf(),
        ensures
            final(self).commands == old(self).commands,
            final(self).tasks == old(self).tasks,
            final(self).projects == old(self).projects,
            final(self).variables == old(self).variables,
            final(self).auths == old(self).auths,
            match r {
                Some(id) => {
                    &&& final(self).wf()
                    &&& id == old(self).next_id
                    &&& final(self).next_id == id + 1
                    &&& !old(self).id_present(id)
                },
                None => *final(self) == *old(self) && old(self).next_id == u64::MAX,
            },
    {
        if self.next_id == u64::MAX {
            return None;
        }
        let id = self.next_id;
        self.next_id = self.next_id + 1;
        proof {
            assert(!old(self).id_present(id));
        }
        Some(id)
    }

    /// Renders the whole store as the JSON document the application writes
    /// back to disk after each mutation.
    pub fn to_json(&self) -> (r: String)
        ensures
            r@ == store_json(*self),
    {
        let mut out = String::from_str("{\"next_id\":");
        out.append(crate::json::u64_string(self.next_id).as_str());
        out.append(",\"auth\":[");
        out.append(records_array(&self.auths).as_str());
        out.append("],\"command\":[");
        out.append(records_array(&self.commands).as_str());
        out.append("],\"project\":[");
        out.append(records_array(&self.projects).as_str());
        out.append("],\"task\":[");
        out.append(records_array(&self.tasks).as_str());
        out.append("],\"variable\":[");
        out.append(records_array(&self.variables).as_str());
        out.append("]}");
        out
    }

    /// Rebuilds a store from a decoded snapshot, validating the identifier
    /// invariant: it succeeds exactly when every identifier is unique across
    /// the collections and below the counter, and fails as a store-open
    /// failure otherwise.
    #[verifier::loop_isolation(false)]
    pub fn assemble(
        next_id: u64,
        commands: Vec<Command>,
        tasks: Vec<Task>,
        projects: Vec<Project>,
        variables: Vec<Variable>,
        auths: Vec<Auth>,
    ) -> (r: Result<FlowletDb, FlowletDbError>)
        ensures
            match r {
                Ok(db) => {
                    &&& db.wf()
                    &&& db.commands == commands
                    &&& db.tasks == tasks
                    &&& db.projects == projects
                    &&& db.variables == variables
                    &&& db.auths == auths
                    &&& db.next_id == next_id
                    &&& snapshot_ok(next_id, commands@, tasks@, projects@, variables@, auths@)
                },
                Err(e) => {
                    &&& e is InstanceCreationFailed
                    &&& !snapshot_ok(next_id, commands@, tasks@, projects@, variables@, auths@)
                },
            },
    {
        let ghost all = ids_of(commands@) + ids_of(tasks@) + ids_of(projects@) + ids_of(
            variables@,
        ) + ids_of(auths@);
        let mut ids: Vec<u64> = Vec::new();
        let mut i: usize = 0;
        while i < commands.len()
            invariant
                i <= commands@.len(),
                ids@ =~= ids_of(commands@.take(i as int)),
            decreases commands@.len() - i,
        {
            ids.push(commands[i]._id);
            proof {
                assert(commands@.take(i + 1int) =~= commands@.take(i as int).push(
                    commands@[i as int],
                ));
                assert(ids_of(commands@.take(i + 1int)) =~= ids_of(commands@.take(i as int)).push(
                    commands@[i as int]._id,
                ));
            }
            i = i + 1;
        }
        proof {
            assert(commands@.take(commands@.len() as int) =~= commands@);
            assert(ids@ =~= ids_of(commands@));
        }
        let mut j: usize = 0;
        while j < tasks.len()
            invariant
                j <= tasks@.len(),
                ids@ =~= ids_of(commands@) + ids_of(tasks@.take(j as int)),
            decreases tasks@.len() - j,
        {
            ids.push(tasks[j]._id);
            proof {
                assert(tasks@.take(j + 1int) =~= tasks@.take(j as int).push(tasks@[j as int]));
                assert(ids_of(tasks@.take(j + 1int)) =~= ids_of(tasks@.take(j as int)).push(
                    tasks@[j as int]._id,
                ));
            }
            j = j + 1;
        }
        proof {
            assert(tasks@.take(tasks@.len() as int) =~= tasks@);
        }
        let mut k: usize = 0;
        while k < projects.len()
            invariant
                k <= projects@.len(),
                ids@ =~= ids_of(commands@) + ids_of(tasks@) + ids_of(projects@.take(k as int)),
            decreases projects@.len() - k,
        {
            ids.push(projects[k]._id);
            proof {
                assert(projects@.take(k + 1int) =~= projects@.take(k as int).push(
                    projects@[k as int],
                ));
                assert(ids_of(projects@.take(k + 1int)) =~= ids_of(projects@.take(k as int)).push(
                    projects@[k as int]._id,
                ));
            }
            k = k + 1;
        }
        proof {
            assert(projects@.take(projects@.len() as int) =~= projects@);
        }
        let mut m: usize = 0;
        while m < variables.len()
            invariant
                m <= variables@.len(),
                ids@ =~= ids_of(commands@) + ids_of(tasks@) + ids_of(projects@) + ids_of(
                    variables@.take(m as int),
                ),
            decreases variables@.len() - m,
        {
            ids.push(variables[m]._id);
            proof {
                assert(variables@.take(m + 1int) =~= variables@.take(m as int).push(
                    variables@[m as int],
                ));
                assert(ids_of(variables@.take(m + 1int)) =~= ids_of(
                    variables@.take(m as int),
                ).push(variables@[m as int]._id));
            }
            m = m + 1;
        }
        proof {
            assert(variables@.take(variables@.len() as int) =~= variables@);
        }
        let mut u: usize = 0;
        while u < auths.len()
            invariant
                u <= auths@.len(),
                ids@ =~= ids_of(commands@) + ids_of(tasks@) + ids_of(projects@) + ids_of(
                    variables@,
                ) + ids_of(auths@.take(u as int)),
            decreases auths@.len() - u,
        {
            ids.push(auths[u]._id);
            proof {
                assert(auths@.take(u + 1int) =~= auths@.take(u as int).push(auths@[u as int]));
                assert(ids_of(auths@.take(u + 1int)) =~= ids_of(auths@.take(u as int)).push(
                    auths@[u as int]._id,
                ));
            }
            u = u + 1;
        }
        proof {
            assert(auths@.take(auths@.len() as int) =~= auths@);
            assert(ids@ =~= all);
        }
        let n = ids.len();
        let mut a: usize = 0;
        while a < n
            invariant
                a <= n,
                n == ids@.len(),
                ids@ == all,
                forall|x: int| 0 <= x < a ==> #[trigger] ids@[x] < next_id,
            decreases n - a,
        {
            if ids[a] >= next_id {
                proof {
                    assert(!below(all, next_id));
                }
                return Err(FlowletDbError::InstanceCreationFailed);
            }
            a = a + 1;
        }
        let mut x: usize = 0;
        while x < n
            invariant
                x <= n,
                n == ids@.len(),
                ids@ == all,
                below(ids@, next_id),
                forall|p1: int, q1: int|
                    #![trigger ids@[p1], ids@[q1]]
                    0 <= p1 < q1 < n && p1 < x ==> ids@[p1] != ids@[q1],
            decreases n - x,
        {
            let mut y: usize = x + 1;
            while y < n
                invariant
                    x < y <= n,
                    n == ids@.len(),
                    ids@ == all,
                    forall|q1: int| x < q1 < y ==> ids@[x as int] != #[trigger] ids@[q1],
                decreases n - y,
            {
                if ids[x] == ids[y] {
                    proof {
                        assert(!distinct(all)) by {
                            if distinct(all) {
                                assert(all[x as int] != all[y as int]);
                            }
                        }
                    }
                    return Err(FlowletDbError::InstanceCreationFailed);
                }
                y = y + 1;
            }
            x = x + 1;
        }
        let db = FlowletDb { commands, tasks, projects, variables, auths, next_id };
        proof {
            assert(distinct(all));
            lemma_snapshot_wf(db);
        }
        Ok(db)
    }
}

/// The comma-separated JSON documents of a collection.
pub open spec fn records_json<R: StoreDoc>(s: Seq<R>) -> Seq<char>
    decreases s.len(),
{
    if s.len() == 0 {
        Seq::empty()
    } else if s.len() == 1 {
        s[0].doc_json()
    } else {
        records_json(s.drop_last()) + ","@ + s.last().doc_json()
    }
}

/// Renders the elements of a collection's JSON array.
fn records_array<R: StoreDoc>(v: &Vec<R>) -> (r: String)
    ensures
        r@ == records_json(v@),
{
    let n = v.len();
    let mut out = String::new();
    let mut i: usize = 0;
    while i < n
        invariant
            i <= n,
            n == v@.len(),
            out@ == records_json(v@.take(i as int)),
        decreases n - i,
    {
        if i > 0 {
            out.append(",");
        }
        out.append(v[i].render_json().as_str());
        proof {
            let cur = v@.take(i + 1int);
            assert(cur.drop_last() =~= v@.take(i as int));
            assert(cur.last() == v@[i as int]);
            if i == 0 {
                assert(out@ =~= records_json(cur));
            }
        }
        i = i + 1;
    }
    proof {
        assert(v@.take(n as int) =~= v@);
    }
    out
}

/// The one JSON document the application persists: the identifier counter
/// and a named collection per entity type.
pub open spec fn store_json(db: FlowletDb) -> Seq<char> {
    "{\"next_id\":"@ + crate::json::dec_str(db.next_id as nat) + ",\"auth\":["@ + records_json(
        db.auths@,
    ) + "],\"command\":["@ + records_json(db.commands@) + "],\"project\":["@ + records_json(
        db.projects@,
    ) + "],\"task\":["@ + records_json(db.tasks@) + "],\"variable\":["@ + records_json(
        db.variables@,
    ) + "]}"@
}

/// What a persisted snapshot must satisfy to be a store again: all
/// identifiers distinct across the five collections and below the counter.
pub open spec fn snapshot_ok(
    next_id: u64,
    commands: Seq<Command>,
    tasks: Seq<Task>,
    projects: Seq<Project>,
    variables: Seq<Variable>,
    auths: Seq<Auth>,
) -> bool {
    let all = ids_of(commands) + ids_of(tasks) + ids_of(projects) + ids_of(variables) + ids_of(
        auths,
    );
    distinct(all) && below(all, next_id)
}

/// Distinctness and the bound over the one concatenated identifier sequence
/// give the store invariant, collection by collection.
pub proof fn lemma_snapshot_wf(db: FlowletDb)
    requires
        snapshot_ok(db.next_id, db.commands@, db.tasks@, db.projects@, db.variables@, db.auths@),
    ensures
        db.wf(),
{
    let c = ids_of(db.commands@);
    let t = ids_of(db.tasks@);
    let p = ids_of(db.projects@);
    let v = ids_of(db.variables@);
    let a = ids_of(db.auths@);
    let all = c + t + p + v + a;
    let oc: int = 0;
    let ot = c.len() as int;
    let op = ot + t.len();
    let ov = op + p.len();
    let oa = ov + v.len();
    assert forall|i: int| 0 <= i < c.len() implies #[trigger] c[i] < db.next_id by {
        assert(c[i] == all[oc + i]);
    }
    assert forall|i: int| 0 <= i < t.len() implies #[trigger] t[i] < db.next_id by {
        assert(t[i] == all[ot + i]);
    }
    assert forall|i: int| 0 <= i < p.len() implies #[trigger] p[i] < db.next_id by {
        assert(p[i] == all[op + i]);
    }
    assert forall|i: int| 0 <= i < v.len() implies #[trigger] v[i] < db.next_id by {
        assert(v[i] == all[ov + i]);
    }
    assert forall|i: int| 0 <= i < a.len() implies #[trigger] a[i] < db.next_id by {
        assert(a[i] == all[oa + i]);
    }
    assert forall|i: int, j: int| #![trigger c[i], c[j]] 0 <= i < j < c.len() implies c[i]
        != c[j] by {
        assert(c[i] == all[oc + i] && c[j] == all[oc + j]);
    }
    assert forall|i: int, j: int| #![trigger t[i], t[j]] 0 <= i < j < t.len() implies t[i]
        != t[j] by {
        assert(t[i] == all[ot + i] && t[j] == all[ot + j]);
    }
    assert forall|i: int, j: int| #![trigger p[i], p[j]] 0 <= i < j < p.len() implies p[i]
        != p[j] by {
        assert(p[i] == all[op + i] && p[j] == all[op + j]);
    }
    assert forall|i: int, j: int| #![trigger v[i], v[j]] 0 <= i < j < v.len() implies v[i]
        != v[j] by {
        assert(v[i] == all[ov + i] && v[j] == all[ov + j]);
    }
    assert forall|i: int, j: int| #![trigger a[i], a[j]] 0 <= i < j < a.len() implies a[i]
        != a[j] by {
        assert(a[i] == all[oa + i] && a[j] == all[oa + j]);
    }
    assert forall|i: int, j: int|
        #![trigger c[i], t[j]]
        0 <= i < c.len() && 0 <= j < t.len() implies c[i] != t[j] by {
        assert(c[i] == all[oc + i] && t[j] == all[ot + j]);
    }
    assert forall|i: int, j: int|
        #![trigger c[i], p[j]]
        0 <= i < c.len() && 0 <= j < p.len() implies c[i] != p[j] by {
        assert(c[i] == all[oc + i] && p[j] == all[op + j]);
    }
    assert forall|i: int, j: int|
        #![trigger c[i], v[j]]
        0 <= i < c.len() && 0 <= j < v.len() implies c[i] != v[j] by {
        assert(c[i] == all[oc + i] && v[j] == all[ov + j]);
    }
    assert forall|i: int, j: int|
        #![trigger c[i], a[j]]
        0 <= i < c.len() && 0 <= j < a.len() implies c[i] != a[j] by {
        assert(c[i] == all[oc + i] && a[j] == all[oa + j]);
    }
    assert forall|i: int, j: int|
        #![trigger t[i], p[j]]
        0 <= i < t.len() && 0 <= j < p.len() implies t[i] != p[j] by {
        assert(t[i] == all[ot + i] && p[j] == all[op + j]);
    }
    assert forall|i: int, j: int|
        #![trigger t[i], v[j]]
        0 <= i < t.len() && 0 <= j < v.len() implies t[i] != v[j] by {
        assert(t[i] == all[ot + i] && v[j] == all[ov + j]);
    }
    assert forall|i: int, j: int|
        #![trigger t[i], a[j]]
        0 <= i < t.len() && 0 <= j < a.len() implies t[i] != a[j] by {
        assert(t[i] == all[ot + i] && a[j] == all[oa + j]);
    }
    assert forall|i: int, j: int|
        #![trigger p[i], v[j]]
        0 <= i < p.len() && 0 <= j < v.len() implies p[i] != v[j] by {
        assert(p[i] == all[op + i] && v[j] == all[ov + j]);
    }
    assert forall|i: int, j: int|
        #![trigger p[i], a[j]]
        0 <= i < p.len() && 0 <= j < a.len() implies p[i] != a[j] by {
        assert(p[i] == all[op + i] && a[j] == all[oa + j]);
    }
    assert forall|i: int, j: int|
        #![trigger v[i], a[j]]
        0 <= i < v.len() && 0 <= j < a.len() implies v[i] != a[j] by {
        assert(v[i] == all[ov + i] && a[j] == all[oa + j]);
    }
}

/// Every identifier in the store, in one sequence: commands, then tasks,
/// projects, variables and the auth record.
pub open spec fn all_stored_ids(db: FlowletDb) -> Seq<u64> {
    ids_of(db.commands@) + ids_of(db.tasks@) + ids_of(db.projects@) + ids_of(db.variables@)
        + ids_of(db.auths@)
}

/// In a well-formed store no identifier occurs twice, in whichever
/// collections the two occurrences lie: the identifier assigned at creation
/// is unique across the store.
pub proof fn lemma_stored_ids_distinct(db: FlowletDb)
    requires
        db.wf(),
    ensures
        distinct(all_stored_ids(db)),
{
    let all = all_stored_ids(db);
    assert forall|i: int, j: int| #![trigger all[i], all[j]] 0 <= i < j < all.len() implies all[i]
        != all[j] by {
        let c = ids_of(db.commands@);
        let t = ids_of(db.tasks@);
        let p = ids_of(db.projects@);
        let v = ids_of(db.variables@);
        let a = ids_of(db.auths@);
        assert(all == c + t + p + v + a);
    }
}

} // verus!

//! The query model shared by the local store and the remote protocol: match
//! everything, or match records whose named field equals a value.  The wire
//! rendering produced here is the one embedded in every remote request body,
//! so both stores read a given query the same way.

use vstd::prelude::*;
use vstd::string::*;

use crate::json;

verus! {

/// A field a query may test.  Each entity exposes a subset of these under
/// fixed wire names: `_id`, `name`, `title`, `project`.
#[derive(Clone, Copy, PartialEq, Eq, Structural, Debug)]
pub enum QueryField {
    Id,
    Name,
    Title,
    Project,
}

/// A value a field is compared against: text for lookup keys and project
/// names, a number for identifiers.
pub enum QueryValue {
    Text(String),
    Num(u64),
}

/// A filter expression: match every record, or match records whose field
/// equals the given value.
pub enum Query {
    All,
    Eq(QueryField, QueryValue),
}

/// The wire name of a field.
pub open spec fn field_wire_name(f: QueryField) -> Seq<char> {
    match f {
        QueryField::Id => "_id"@,
        QueryField::Name => "name"@,
        QueryField::Title => "title"@,
        QueryField::Project => "project"@,
    }
}

/// The wire rendering of a value: a quoted, escaped string or a decimal
/// number.
pub open spec fn value_wire(v: QueryValue) -> Seq<char> {
    match v {
        QueryValue::Text(s) => "\""@ + json::escaped(s@) + "\""@,
        QueryValue::Num(n) => json::dec_str(n as nat),
    }
}

/// The wire rendering of a query.
pub open spec fn query_wire(q: Query) -> Seq<char> {
    match q {
        Query::All => "\"all\""@,
        Query::Eq(f, v) => "{\"eq\":[\""@ + field_wire_name(f) + "\","@ + value_wire(v) + "]}"@,
    }
}

/// An equality query on the `name` lookup key.
pub open spec fn name_query(s: String) -> Query {
    Query::Eq(QueryField::Name, QueryValue::Text(s))
}

/// An equality query on the `title` lookup key.
pub open spec fn title_query(s: String) -> Query {
    Query::Eq(QueryField::Title, QueryValue::Text(s))
}

/// The body of a find or delete request: the query alone.
pub open spec fn find_body(q: Query) -> Seq<char> {
    "{\"query\":"@ + query_wire(q) + "}"@
}

/// The body of an update request: the query and the updated document.
pub open spec fn update_body(q: Query, doc: Seq<char>) -> Seq<char> {
    "{\"query\":"@ + query_wire(q) + ",\"document\":"@ + doc + "}"@
}

/// Renders a find or delete request body.
pub fn find_body_string(q: &Query) -> (r: String)
    ensures
        r@ == find_body(*q),
{
    let mut out = String::from_str("{\"query\":");
    out.append(q.wire().as_str());
    out.append("}");
    out
}

/// Renders an update request body around an already rendered document.
pub fn update_body_string(q: &Query, doc: &str) -> (r: String)
    ensures
        r@ == update_body(*q, doc@),
{
    let mut out = String::from_str("{\"query\":");
    out.append(q.wire().as_str());
    out.append(",\"document\":");
    out.append(doc);
    out.append("}");
    out
}

impl QueryField {
    /// The wire name as a string slice.
    pub fn wire_name(&self) -> (r: &'static str)
        ensures
            r@ == field_wire_name(*self),
    {
        match self {
            QueryField::Id => "_id",
            QueryField::Name => "name",
            QueryField::Title => "title",
            QueryField::Project => "project",
        }
    }
}

impl QueryValue {
    /// Renders the value for the wire.
    pub fn wire(&self) -> (r: String)
        ensures
            r@ == value_wire(*self),
    {
        match self {
            QueryValue::Text(s) => {
                let mut out = String::from_str("\"");
                out.append(json::escape(s.as_str()).as_str());
                out.append("\"");
                out
            },
            QueryValue::Num(n) => json::u64_string(*n),
        }
    }
}

impl Query {
    /// Renders the query for the wire.
    pub fn wire(&self) -> (r: String)
        ensures
            r@ == query_wire(*self),
    {
        match self {
            Query::All => String::from_str("\"all\""),
            Query::Eq(f, v) => {
                let mut out = String::from_str("{\"eq\":[\"");
                out.append(f.wire_name());
                out.append("\",");
                out.append(v.wire().as_str());
                out.append("]}");
                out
            },
        }
    }
}

} // verus!

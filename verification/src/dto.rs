//! The pattern records exchanged with the server.

use vstd::prelude::*;

verus! {

/// Kind of analysis a pattern takes part in.
#[derive(Clone, Copy, Debug, PartialEq, Eq, Structural)]
pub enum PatternType {
    Reporting,
    Dataflow,
}

/// How a reporting pattern is queried.
#[derive(Clone, Copy, Debug, PartialEq, Eq, Structural)]
pub enum QueryType {
    Regex,
    Xpath,
}

/// A pattern as the server reports it. Only `name` and `xml` are always
/// present; the other fields may be missing depending on the server version.
#[derive(Debug)]
pub struct PatternDto {
    pub uuid: Option<String>,
    pub rule_id: Option<String>,
    pub severity: Option<i32>,
    pub confidence: Option<i32>,
    pub name: String,
    pub xml: String,
    pub pattern_type: Option<PatternType>,
    pub active: Option<bool>,
    pub shared: Option<bool>,
    pub user: Option<String>,
    pub query_type: Option<QueryType>,
    pub file_regex: Option<String>,
}

/// The body of a create or update request.
#[derive(Debug)]
pub struct PatternWrite {
    pub uuid: Option<String>,
    pub rule_id: String,
    pub severity: i32,
    pub confidence: i32,
    pub name: String,
    pub xml: String,
    pub pattern_type: PatternType,
    pub active: bool,
    pub shared: Option<bool>,
    pub user: Option<String>,
    pub query_type: Option<QueryType>,
    pub file_regex: Option<String>,
}

/// The characters of an optional string.
pub open spec fn opt_view(s: Option<String>) -> Option<Seq<char>> {
    match s {
        Some(v) => Some(v@),
        None => None,
    }
}

/// A copy of an optional string.
pub fn clone_opt_string(s: &Option<String>) -> (r: Option<String>)
    ensures
        r == *s,
{
    match s {
        Some(v) => Some(v.clone()),
        None => None,
    }
}

/// Whether two optional strings hold the same characters.
pub fn opt_string_eq(a: &Option<String>, b: &Option<String>) -> (r: bool)
    ensures
        r == (opt_view(*a) == opt_view(*b)),
{
    match (a, b) {
        (Some(x), Some(y)) => x.eq(y),
        (None, None) => true,
        _ => false,
    }
}

/// Whether two optional integers are equal.
pub fn opt_i32_eq(a: Option<i32>, b: Option<i32>) -> (r: bool)
    ensures
        r == (a == b),
{
    match (a, b) {
        (Some(x), Some(y)) => x == y,
        (None, None) => true,
        _ => false,
    }
}

impl Clone for PatternDto {
    fn clone(&self) -> (r: Self)
        ensures
            r == *self,
    {
        PatternDto {
            uuid: clone_opt_string(&self.uuid),
            rule_id: clone_opt_string(&self.rule_id),
            severity: self.severity,
            confidence: self.confidence,
            name: self.name.clone(),
            xml: self.xml.clone(),
            pattern_type: self.pattern_type,
            active: self.active,
            shared: self.shared,
            user: clone_opt_string(&self.user),
            query_type: self.query_type,
            file_regex: clone_opt_string(&self.file_regex),
        }
    }
}

impl Clone for PatternWrite {
    fn clone(&self) -> (r: Self)
        ensures
            r == *self,
    {
        PatternWrite {
            uuid: clone_opt_string(&self.uuid),
            rule_id: self.rule_id.clone(),
            severity: self.severity,
            confidence: self.confidence,
            name: self.name.clone(),
            xml: self.xml.clone(),
            pattern_type: self.pattern_type,
            active: self.active,
            shared: self.shared,
            user: clone_opt_string(&self.user),
            query_type: self.query_type,
            file_regex: clone_opt_string(&self.file_regex),
        }
    }
}

} // verus!

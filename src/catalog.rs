//! The records of the catalog of checkouts, groups and logical agents, and
//! the rules applied before the store is touched.
use crate::text::{chars_of, contains, has_infix, string_of, trimmed, trimmed_chars};
use vstd::prelude::*;

verus! {

/// A tracked checkout.
pub struct Repo {
    pub id: i64,
    pub name: String,
    pub path: String,
    pub group_id: Option<i64>,
    pub created_at: String,
}

/// A named group of checkouts.
pub struct Group {
    pub id: i64,
    pub name: String,
    pub sort_order: i64,
    pub created_at: String,
}

/// A logical agent attached to a checkout.
pub struct Agent {
    pub id: i64,
    pub repo_id: i64,
    pub name: String,
    pub created_at: String,
}

/// The name an agent is stored under: the given name trimmed, which must not
/// be blank.
pub fn agent_name(name: &str) -> (r: Result<String, String>)
    ensures
        match r {
            Ok(n) => trimmed(name@).len() > 0 && n@ == trimmed(name@),
            Err(e) => trimmed(name@).len() == 0 && e@ == "Agent name is required"@,
        },
{
    let s = chars_of(name);
    let t = trimmed_chars(s.as_slice());
    if t.len() == 0 {
        Err(String::from_str("Agent name is required"))
    } else {
        Ok(string_of(t.as_slice()))
    }
}

/// The outcome of deleting an agent, from the number of rows removed.
pub fn agent_deleted(rows: usize) -> (r: Result<(), String>)
    ensures
        rows > 0 <==> r is Ok,
        r matches Err(e) ==> e@ == "Agent not found"@,
{
    if rows == 0 {
        Err(String::from_str("Agent not found"))
    } else {
        Ok(())
    }
}

/// The message for a store error when adding a checkout: a uniqueness
/// violation means the checkout is already tracked.
pub fn insert_repo_error(message: &str) -> (r: String)
    ensures
        r@ == if contains(message@, "UNIQUE"@) { "This repository has already been added"@ } else { message@ },
{
    let s = chars_of(message);
    let u = chars_of("UNIQUE");
    if has_infix(s.as_slice(), u.as_slice()) {
        String::from_str("This repository has already been added")
    } else {
        String::from_str(message)
    }
}

/// The sort position of a new group: after the largest one in use.
pub fn next_sort_order(max_order: i64) -> (r: i64)
    requires
        max_order < i64::MAX,
    ensures
        r == max_order + 1,
{
    max_order + 1
}

} // verus!

//! The request methods this server recognizes, matched without regard to
//! letter case.

use vstd::prelude::*;

verus! {

/// The closed set of request methods. A token outside this set is a parse
/// failure.
#[derive(Clone, Copy, Debug, PartialEq, Eq, Structural)]
pub enum HttpMethod {
    Get,
    Post,
    Put,
    Delete,
    Patch,
    Head,
    Options,
    Trace,
    Connect,
}

/// A character's scalar value with an ASCII lowercase letter folded to its
/// uppercase form; every other character is left alone.
pub open spec fn spec_upper(c: char) -> u32 {
    if 97 <= c as u32 <= 122 {
        (c as u32 - 32) as u32
    } else {
        c as u32
    }
}

/// Equality of two character sequences up to ASCII letter case.
pub open spec fn spec_eq_ignore_case(a: Seq<char>, b: Seq<char>) -> bool {
    a.len() == b.len() && forall|i: int| 0 <= i < a.len() ==> spec_upper(a[i]) == spec_upper(b[i])
}

/// The method a token names, matched case-insensitively; `None` for any
/// token outside the set.
pub open spec fn spec_method_of(s: Seq<char>) -> Option<HttpMethod> {
    if spec_eq_ignore_case(s, "GET"@) {
        Some(HttpMethod::Get)
    } else if spec_eq_ignore_case(s, "POST"@) {
        Some(HttpMethod::Post)
    } else if spec_eq_ignore_case(s, "PUT"@) {
        Some(HttpMethod::Put)
    } else if spec_eq_ignore_case(s, "DELETE"@) {
        Some(HttpMethod::Delete)
    } else if spec_eq_ignore_case(s, "PATCH"@) {
        Some(HttpMethod::Patch)
    } else if spec_eq_ignore_case(s, "HEAD"@) {
        Some(HttpMethod::Head)
    } else if spec_eq_ignore_case(s, "OPTIONS"@) {
        Some(HttpMethod::Options)
    } else if spec_eq_ignore_case(s, "TRACE"@) {
        Some(HttpMethod::Trace)
    } else if spec_eq_ignore_case(s, "CONNECT"@) {
        Some(HttpMethod::Connect)
    } else {
        None
    }
}

fn upper(c: char) -> (u: u32)
    ensures
        u == spec_upper(c),
{
    let v = c as u32;
    if 97 <= v && v <= 122 {
        v - 32
    } else {
        v
    }
}

/// Compares two strings up to ASCII letter case.
pub fn eq_ignore_case(a: &str, b: &str) -> (r: bool)
    ensures
        r == spec_eq_ignore_case(a@, b@),
{
    let n = a.unicode_len();
    if n != b.unicode_len() {
        return false;
    }
    let mut i: usize = 0;
    while i < n
        invariant
            i <= n,
            n == a@.len(),
            n == b@.len(),
            forall|j: int| 0 <= j < i ==> spec_upper(a@[j]) == spec_upper(b@[j]),
        decreases n - i,
    {
        if upper(a.get_char(i)) != upper(b.get_char(i)) {
            return false;
        }
        i += 1;
    }
    true
}

impl HttpMethod {
    /// Parses a method token, matching it case-insensitively against the
    /// recognized set.
    pub fn parse(token: &str) -> (r: Option<HttpMethod>)
        ensures
            r == spec_method_of(token@),
    {
        if eq_ignore_case(token, "GET") {
            Some(HttpMethod::Get)
        } else if eq_ignore_case(token, "POST") {
            Some(HttpMethod::Post)
        } else if eq_ignore_case(token, "PUT") {
            Some(HttpMethod::Put)
        } else if eq_ignore_case(token, "DELETE") {
            Some(HttpMethod::Delete)
        } else if eq_ignore_case(token, "PATCH") {
            Some(HttpMethod::Patch)
        } else if eq_ignore_case(token, "HEAD") {
            Some(HttpMethod::Head)
        } else if eq_ignore_case(token, "OPTIONS") {
            Some(HttpMethod::Options)
        } else if eq_ignore_case(token, "TRACE") {
            Some(HttpMethod::Trace)
        } else if eq_ignore_case(token, "CONNECT") {
            Some(HttpMethod::Connect)
        } else {
            None
        }
    }
}

} // verus!

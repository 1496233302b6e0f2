//! Middleware stages that rewrite outbound requests before they reach the
//! transport, and the inbound rule that every listing request names a
//! reference date.

pub mod uri;

use vstd::prelude::*;
use vstd::string::*;

use crate::date::{push_date, spec_date_str, Date};

verus! {

/// `sub` occurs in `s` at position `i`.
pub open spec fn spec_contains_at(s: Seq<char>, sub: Seq<char>, i: int) -> bool {
    0 <= i && i + sub.len() <= s.len() && s.subrange(i, i + sub.len()) == sub
}

/// `sub` occurs somewhere in `s`.
pub open spec fn spec_contains(s: Seq<char>, sub: Seq<char>) -> bool {
    exists|i: int| spec_contains_at(s, sub, i)
}

fn matches_at(s: &str, sub: &str, i: usize, s_len: usize, sub_len: usize) -> (r: bool)
    requires
        s_len == s@.len(),
        sub_len == sub@.len(),
        i + sub_len <= s_len,
    ensures
        r == spec_contains_at(s@, sub@, i as int),
{
    let mut j: usize = 0;
    while j < sub_len
        invariant
            j <= sub_len,
            s_len == s@.len(),
            sub_len == sub@.len(),
            i + sub_len <= s_len,
            forall|t: int| 0 <= t < j ==> s@[i + t] == sub@[t],
        decreases sub_len - j,
    {
        if s.get_char(i + j) != sub.get_char(j) {
            assert(s@.subrange(i as int, i + sub@.len())[j as int] != sub@[j as int]);
            return false;
        }
        j = j + 1;
    }
    assert(s@.subrange(i as int, i + sub@.len()) =~= sub@);
    true
}

/// Whether `s` holds `sub` as a substring.
pub fn str_contains(s: &str, sub: &str) -> (r: bool)
    ensures
        r == spec_contains(s@, sub@),
{
    let s_len = s.unicode_len();
    let sub_len = sub.unicode_len();
    if sub_len > s_len {
        assert(!spec_contains(s@, sub@));
        return false;
    }
    if sub_len == 0 {
        assert(spec_contains_at(s@, sub@, 0)) by {
            assert(s@.subrange(0, 0) =~= sub@);
        }
        return true;
    }
    let mut i: usize = 0;
    while i <= s_len - sub_len
        invariant
            1 <= sub_len <= s_len,
            s_len == s@.len(),
            sub_len == sub@.len(),
            i <= s_len - sub_len + 1,
            forall|k: int| 0 <= k < i ==> !spec_contains_at(s@, sub@, k),
        decreases s_len + 1 - i,
    {
        if matches_at(s, sub, i, s_len, sub_len) {
            return true;
        }
        i = i + 1;
    }
    assert(!spec_contains(s@, sub@)) by {
        assert(forall|k: int| spec_contains_at(s@, sub@, k) ==> 0 <= k <= s@.len() - sub@.len());
    }
    false
}

/// The rule that every listing request carries a reference date: a request
/// whose query already names a `date` parameter passes through; any other
/// is redirected to the same path with today's date filled in.  The
/// returned value is the redirect target, when one is owed.
pub fn enforce_date_query(path: &str, query: Option<&str>, today: &Date) -> (r: Option<String>)
    requires
        today.wf(),
    ensures
        match r {
            None => query matches Some(q) && spec_contains(q@, "date"@),
            Some(target) => {
                &&& match query {
                    Some(q) => !spec_contains(q@, "date"@),
                    None => true,
                }
                &&& target@ == path@ + "?date="@ + spec_date_str(*today)
            },
        },
{
    if let Some(q) = query {
        if str_contains(q, "date") {
            return None;
        }
    }
    let mut target = String::new();
    target.append(path);
    target.append("?date=");
    push_date(&mut target, today);
    assert(target@ =~= path@ + "?date="@ + spec_date_str(*today));
    Some(target)
}

} // verus!

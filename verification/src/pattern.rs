//! Regular-expression captures, through the `regex` crate.

use vstd::prelude::*;
use crate::text::opt_view;

verus! {

/// The characters of a list of optional strings.
pub open spec fn opt_views_seq(v: Seq<Option<String>>) -> Seq<Option<Seq<char>>> {
    v.map_values(|o: Option<String>| opt_view(o))
}

/// What compiling `pattern` with `regex::Regex::new` and walking
/// `captures_iter` over `text` gives: for each match, in order, its first
/// capture group (absent when the group took no part in the match); or the
/// compile error's text.
pub uninterp spec fn spec_regex_group1(pattern: Seq<char>, text: Seq<char>)
    -> Result<Seq<Option<Seq<char>>>, Seq<char>>;

/// Calls `regex::Regex::new` and `Regex::captures_iter`, keeping each
/// match's group 1. Believed: the outcome is `spec_regex_group1` of the
/// pattern and text; nothing more is claimed.
#[verifier::external_body]
pub(crate) fn regex_group1(pattern: &str, text: &str) -> (r: Result<Vec<Option<String>>, String>)
    ensures
        spec_regex_group1(pattern@, text@) == match r {
            Ok(v) => Ok(opt_views_seq(v@)),
            Err(m) => Err(m@),
        },
{
    let re = regex::Regex::new(pattern).map_err(|e| e.to_string())?;
    Ok(re.captures_iter(text).map(|c| c.get(1).map(|m| m.as_str().to_string())).collect())
}

/// Group 1 of the first match of `pattern` in `text`, when the pattern
/// compiles, matches, and the group took part.
pub open spec fn spec_regex_first(pattern: Seq<char>, text: Seq<char>) -> Option<Seq<char>> {
    match spec_regex_group1(pattern, text) {
        Ok(caps) => if caps.len() > 0 { caps[0] } else { None },
        Err(_) => None,
    }
}

/// Extracts group 1 of the first match of `pattern` in `text`.
pub fn regex_match(text: &str, pattern: &str) -> (r: Option<String>)
    ensures
        opt_view(r) == spec_regex_first(pattern@, text@),
{
    match regex_group1(pattern, text) {
        Ok(mut caps) => {
            if caps.len() > 0 {
                let first = caps.swap_remove(0);
                first
            } else {
                None
            }
        },
        Err(_) => None,
    }
}

/// The groups that took part, in order.
pub open spec fn present(caps: Seq<Option<Seq<char>>>) -> Seq<Seq<char>>
    decreases caps.len(),
{
    if caps.len() == 0 {
        Seq::empty()
    } else {
        match caps.last() {
            Some(c) => present(caps.drop_last()).push(c),
            None => present(caps.drop_last()),
        }
    }
}

/// The captured strings that are present, in order.
pub fn present_captures(caps: Vec<Option<String>>) -> (r: Vec<String>)
    ensures
        crate::text::views(r@) == present(opt_views_seq(caps@)),
{
    let mut out: Vec<String> = Vec::new();
    let mut i: usize = 0;
    let ghost cs = opt_views_seq(caps@);
    assert(cs.take(0) =~= Seq::<Option<Seq<char>>>::empty());
    while i < caps.len()
        invariant
            cs == opt_views_seq(caps@),
            i <= caps@.len(),
            crate::text::views(out@) == present(cs.take(i as int)),
        decreases caps.len() - i,
    {
        assert(cs.take(i + 1).drop_last() =~= cs.take(i as int));
        assert(cs.take(i + 1).last() == opt_view(caps@[i as int]));
        match &caps[i] {
            Some(c) => {
                out.push(c.clone());
                assert(crate::text::views(out@) =~= present(cs.take(i as int)).push(c@));
            },
            None => {},
        }
        i += 1;
    }
    assert(cs.take(caps@.len() as int) =~= cs);
    out
}

} // verus!

//! SQL `LIKE` pattern matching over character sequences.
//!
//! `%` matches any run of characters (possibly empty), `_` matches exactly
//! one character, every other pattern character matches itself.  Callers are
//! responsible for wildcard placement, as with the SQL operator.

use vstd::prelude::*;

verus! {

/// `LIKE` semantics of pattern `p` against text `s`.
pub open spec fn like_match(p: Seq<char>, s: Seq<char>) -> bool
    decreases p.len(), s.len(),
{
    if p.len() == 0 {
        s.len() == 0
    } else if p[0] == '%' {
        like_match(p.skip(1), s) || (s.len() > 0 && like_match(p, s.skip(1)))
    } else if s.len() == 0 {
        false
    } else {
        (p[0] == '_' || p[0] == s[0]) && like_match(p.skip(1), s.skip(1))
    }
}

/// Decides `like_match` on the suffixes of `p` and `s` that start at `pi`
/// and `si`.
fn like_match_at(p: &Vec<char>, s: &Vec<char>, pi: usize, si: usize) -> (r: bool)
    requires
        pi <= p.len(),
        si <= s.len(),
    ensures
        r == like_match(p@.skip(pi as int), s@.skip(si as int)),
    decreases p.len() - pi, s.len() - si,
{
    proof {
        assert(p@.skip(pi as int).len() == p@.len() - pi);
        assert(s@.skip(si as int).len() == s@.len() - si);
        if pi < p.len() {
            assert(p@.skip(pi as int)[0] == p@[pi as int]);
            assert(p@.skip(pi as int).skip(1) =~= p@.skip(pi as int + 1));
        }
        if si < s.len() {
            assert(s@.skip(si as int)[0] == s@[si as int]);
            assert(s@.skip(si as int).skip(1) =~= s@.skip(si as int + 1));
        }
    }
    if pi == p.len() {
        si == s.len()
    } else if p[pi] == '%' {
        if like_match_at(p, s, pi + 1, si) {
            true
        } else if si < s.len() {
            like_match_at(p, s, pi, si + 1)
        } else {
            false
        }
    } else if si == s.len() {
        false
    } else if p[pi] == '_' || p[pi] == s[si] {
        like_match_at(p, s, pi + 1, si + 1)
    } else {
        false
    }
}

/// Decides whether `text` matches the `LIKE` pattern `pattern`.
pub fn like_matches(pattern: &Vec<char>, text: &Vec<char>) -> (r: bool)
    ensures
        r == like_match(pattern@, text@),
{
    proof {
        assert(pattern@.skip(0) =~= pattern@);
        assert(text@.skip(0) =~= text@);
    }
    like_match_at(pattern, text, 0, 0)
}

} // verus!

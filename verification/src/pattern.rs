//! The pattern matcher.
//!
//! Filters select containers by glob-style patterns: `*` matches any run of
//! characters (including none), `?` matches exactly one character, and every
//! other character matches itself. Matching is case-sensitive and covers the
//! whole string, never a substring.

use vstd::prelude::*;
use crate::strutil::{chars_of, str_eq, str_has_char};

verus! {

/// What it means for `pattern` to match all of `text`.
///
/// The recursion works from the last character of the pattern, which is also
/// the direction the matching table below is filled in.
pub open spec fn glob_match(pattern: Seq<char>, text: Seq<char>) -> bool
    decreases pattern.len() + text.len(),
{
    if pattern.len() == 0 {
        text.len() == 0
    } else if pattern.last() == '*' {
        glob_match(pattern.drop_last(), text)
            || (text.len() > 0 && glob_match(pattern, text.drop_last()))
    } else if pattern.last() == '?' {
        text.len() > 0 && glob_match(pattern.drop_last(), text.drop_last())
    } else {
        text.len() > 0 && pattern.last() == text.last()
            && glob_match(pattern.drop_last(), text.drop_last())
    }
}

/// Law: a pattern without wildcards matches exactly one text — itself.
pub proof fn lemma_literal_pattern_is_equality(pattern: Seq<char>, text: Seq<char>)
    requires
        !pattern.contains('*'),
        !pattern.contains('?'),
    ensures
        glob_match(pattern, text) <==> pattern == text,
    decreases pattern.len() + text.len(),
{
    if pattern.len() == 0 {
        if text.len() == 0 {
            assert(pattern =~= text);
        }
    } else {
        assert(pattern.last() != '*' && pattern.last() != '?') by {
            assert(pattern[pattern.len() - 1] == pattern.last());
        }
        assert(!pattern.drop_last().contains('*') && !pattern.drop_last().contains('?')) by {
            assert(forall|i: int| 0 <= i < pattern.drop_last().len()
                ==> pattern.drop_last()[i] == pattern[i]);
        }
        if text.len() > 0 {
            lemma_literal_pattern_is_equality(pattern.drop_last(), text.drop_last());
            if glob_match(pattern, text) {
                assert(pattern.drop_last() == text.drop_last());
                assert(pattern.len() == text.len());
                assert forall|i: int| 0 <= i < pattern.len() implies pattern[i] == text[i] by {
                    if i < pattern.len() - 1 {
                        assert(pattern.drop_last()[i] == pattern[i]);
                        assert(text.drop_last()[i] == text[i]);
                    } else {
                        assert(pattern.last() == text.last());
                    }
                }
                assert(pattern =~= text);
            }
            if pattern == text {
                assert(pattern.drop_last() == text.drop_last());
            }
        }
    }
}

/// Wildcard matching by a two-dimensional table over pattern length and text
/// length: entry `(i, j)` says whether the first `i` pattern characters match
/// the first `j` text characters.
pub fn matches_wildcard(input: &str, pattern: &str) -> (r: bool)
    ensures
        r == glob_match(pattern@, input@),
{
    let p = chars_of(pattern);
    let t = chars_of(input);
    let plen = p.len();
    let tlen = t.len();

    // Row 0: the empty pattern matches only the empty text.
    let mut row0: Vec<bool> = Vec::new();
    row0.push(true);
    let mut j: usize = 0;
    while j < tlen
        invariant
            j <= tlen,
            tlen == t@.len(),
            row0@.len() == j + 1,
            forall|jj: int| 0 <= jj <= j ==> row0@[jj] == glob_match(p@.take(0), t@.take(jj)),
        decreases tlen - j,
    {
        row0.push(false);
        proof {
            assert(t@.take(j + 1 as int).len() == j + 1);
        }
        j = j + 1;
    }

    let mut dp: Vec<Vec<bool>> = Vec::new();
    dp.push(row0);

    let mut i: usize = 0;
    while i < plen
        invariant
            i <= plen,
            plen == p@.len(),
            tlen == t@.len(),
            dp@.len() == i + 1,
            forall|ii: int| 0 <= ii <= i ==> (#[trigger] dp@[ii])@.len() == tlen + 1,
            forall|ii: int, jj: int| 0 <= ii <= i && 0 <= jj <= tlen
                ==> (#[trigger] dp@[ii]@[jj]) == glob_match(p@.take(ii), t@.take(jj)),
        decreases plen - i,
    {
        let pc = p[i];
        proof {
            assert(p@.take(i + 1 as int).last() == p@[i as int]);
            assert(p@.take(i + 1 as int).drop_last() =~= p@.take(i as int));
        }
        let mut row: Vec<bool> = Vec::new();
        // Column 0: only a run of `*` can match the empty text.
        if pc == '*' {
            let v = dp[i][0];
            row.push(v);
        } else {
            row.push(false);
        }
        proof {
            assert(t@.take(0).len() == 0);
            assert(row@[0] == glob_match(p@.take(i + 1 as int), t@.take(0)));
        }
        let mut j: usize = 0;
        while j < tlen
            invariant
                j <= tlen,
                i < plen,
                plen == p@.len(),
                tlen == t@.len(),
                pc == p@[i as int],
                dp@.len() == i + 1,
                forall|ii: int| 0 <= ii <= i ==> (#[trigger] dp@[ii])@.len() == tlen + 1,
                forall|ii: int, jj: int| 0 <= ii <= i && 0 <= jj <= tlen
                    ==> (#[trigger] dp@[ii]@[jj]) == glob_match(p@.take(ii), t@.take(jj)),
                row@.len() == j + 1,
                forall|jj: int| 0 <= jj <= j
                    ==> row@[jj] == glob_match(p@.take(i + 1), t@.take(jj)),
            decreases tlen - j,
        {
            proof {
                assert(t@.take(j + 1 as int).last() == t@[j as int]);
                assert(t@.take(j + 1 as int).drop_last() =~= t@.take(j as int));
                assert(p@.take(i + 1 as int).last() == p@[i as int]);
                assert(p@.take(i + 1 as int).drop_last() =~= p@.take(i as int));
                assert(t@.take(j + 1 as int).len() == j + 1);
            }
            let v: bool = if pc == '*' {
                dp[i][j + 1] || row[j]
            } else if pc == '?' {
                dp[i][j]
            } else {
                dp[i][j] && pc == t[j]
            };
            row.push(v);
            j = j + 1;
        }
        dp.push(row);
        i = i + 1;
    }

    proof {
        assert(p@.take(plen as int) =~= p@);
        assert(t@.take(tlen as int) =~= t@);
    }
    dp[plen][tlen]
}

/// Pattern matching as the filters use it: wildcard matching when the
/// pattern holds `*` or `?`, plain string equality otherwise. The shortcut
/// changes nothing — a wildcard-free pattern matches exactly itself.
pub fn matches_pattern(input: &str, pattern: &str) -> (r: bool)
    ensures
        r == glob_match(pattern@, input@),
{
    if str_has_char(pattern, '*') || str_has_char(pattern, '?') {
        matches_wildcard(input, pattern)
    } else {
        proof {
            lemma_literal_pattern_is_equality(pattern@, input@);
        }
        str_eq(input, pattern)
    }
}

} // verus!

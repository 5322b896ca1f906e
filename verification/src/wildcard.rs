//! Wildcard patterns: `*` stands for any run of characters, `?` for any one character, and
//! every other character for itself.
use vstd::prelude::*;

use crate::text::chars_of;

verus! {

/// `p[i..]` matches `s[j..]`.
pub open spec fn glob_from(p: Seq<char>, s: Seq<char>, i: int, j: int) -> bool
    decreases p.len() - i, s.len() - j,
{
    if i < 0 || j < 0 || i > p.len() || j > s.len() {
        false
    } else if i == p.len() {
        j == s.len()
    } else if p[i] == '*' {
        glob_from(p, s, i + 1, j) || (j < s.len() && glob_from(p, s, i, j + 1))
    } else if j == s.len() {
        false
    } else if p[i] == '?' || p[i] == s[j] {
        glob_from(p, s, i + 1, j + 1)
    } else {
        false
    }
}

/// The pattern `p` matches the whole of `s`.
pub open spec fn glob_match(p: Seq<char>, s: Seq<char>) -> bool {
    glob_from(p, s, 0, 0)
}

/// `p` holds a wildcard character.
pub open spec fn has_wildcard(p: Seq<char>) -> bool {
    exists|i: int| 0 <= i < p.len() && (p[i] == '*' || p[i] == '?')
}

/// Whether the argument is a wildcard pattern rather than a plain name.
pub fn is_wildcard(arg: &str) -> (r: bool)
    ensures
        r == has_wildcard(arg@),
{
    let v = chars_of(arg);
    let mut i: usize = 0;
    while i < v.len()
        invariant
            v@ == arg@,
            i <= v@.len(),
            forall|k: int| 0 <= k < i ==> v@[k] != '*' && v@[k] != '?',
        decreases v@.len() - i,
    {
        if v[i] == '*' || v[i] == '?' {
            return true;
        }
        i = i + 1;
    }
    false
}

/// Whether the pattern `pattern` matches the whole of `name`.
pub fn wildcard_match(pattern: &str, name: &str) -> (r: bool)
    ensures
        r == glob_match(pattern@, name@),
{
    let p = chars_of(pattern);
    let s = chars_of(name);
    let pl = p.len();
    let sl = s.len();
    // Row i: `row[k]` tells whether p[i..] matches s[k..] for k < sl, and `row_end`
    // whether p[i..] matches the empty rest s[sl..].
    let mut row: Vec<bool> = Vec::new();
    for k in 0..sl
        invariant
            sl == s@.len(),
            pl == p@.len(),
            row@.len() == k,
            forall|m: int| 0 <= m < k ==> row@[m] == glob_from(p@, s@, pl as int, m),
    {
        row.push(false);
    }
    let mut row_end = true;
    let mut i: usize = pl;
    while i > 0
        invariant
            sl == s@.len(),
            pl == p@.len(),
            i <= pl,
            row@.len() == sl,
            forall|m: int| 0 <= m < sl ==> row@[m] == glob_from(p@, s@, i as int, m),
            row_end == glob_from(p@, s@, i as int, sl as int),
        decreases i,
    {
        let pc = p[i - 1];
        let mut cur: Vec<bool> = Vec::new();
        for k in 0..sl
            invariant
                cur@.len() == k,
        {
            cur.push(false);
        }
        let cur_end = if pc == '*' { row_end } else { false };
        let mut m: usize = sl;
        while m > 0
            invariant
                sl == s@.len(),
                pl == p@.len(),
                0 < i <= pl,
                pc == p@[i - 1],
                m <= sl,
                row@.len() == sl,
                cur@.len() == sl,
                forall|q: int| 0 <= q < sl ==> row@[q] == glob_from(p@, s@, i as int, q),
                row_end == glob_from(p@, s@, i as int, sl as int),
                cur_end == glob_from(p@, s@, i - 1, sl as int),
                forall|q: int| m <= q < sl ==> cur@[q] == glob_from(p@, s@, i - 1, q),
            decreases m,
        {
            let q = m - 1;
            let later = if q + 1 == sl { row_end } else { row[q + 1] };
            let val = if pc == '*' {
                let rest = if q + 1 == sl { cur_end } else { cur[q + 1] };
                row[q] || rest
            } else {
                (pc == '?' || pc == s[q]) && later
            };
            cur.set(q, val);
            m = q;
        }
        row = cur;
        row_end = cur_end;
        i = i - 1;
    }
    if sl == 0 {
        row_end
    } else {
        row[0]
    }
}

} // verus!

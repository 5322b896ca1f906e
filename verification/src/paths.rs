//! Unix path text: joining and the final component, as `std::path` computes them.
use vstd::prelude::*;

use crate::text::{chars_of, slice_to_vec, string_of};

verus! {

/// `dir` joined with `name` (`Path::join` on Unix): an absolute `name` replaces `dir`;
/// otherwise a `'/'` separates them unless `dir` is empty or already ends with one.
pub open spec fn joined(dir: Seq<char>, name: Seq<char>) -> Seq<char> {
    if name.len() > 0 && name[0] == '/' {
        name
    } else if dir.len() > 0 && dir.last() != '/' {
        dir + seq!['/'] + name
    } else {
        dir + name
    }
}

/// `Path::join`, rendered back to text.
pub fn join_path(dir: &str, name: &str) -> (r: String)
    ensures
        r@ == joined(dir@, name@),
{
    let d = chars_of(dir);
    let n = chars_of(name);
    if n.len() > 0 && n[0] == '/' {
        return string_of(n.as_slice());
    }
    let mut out = d;
    if out.len() > 0 && out[out.len() - 1] != '/' {
        out.push('/');
    }
    let ghost before = out@;
    let mut i: usize = 0;
    while i < n.len()
        invariant
            i <= n@.len(),
            out@ == before + n@.subrange(0, i as int),
        decreases n@.len() - i,
    {
        out.push(n[i]);
        i = i + 1;
    }
    assert(n@.subrange(0, n@.len() as int) =~= n@);
    string_of(out.as_slice())
}

/// The largest `e <= end` such that `s[e - 1]` is not `c` (or 0).
pub open spec fn strip_end_index(s: Seq<char>, c: char, end: int) -> int
    decreases end,
{
    if end <= 0 {
        0
    } else if s[end - 1] == c {
        strip_end_index(s, c, end - 1)
    } else {
        end
    }
}

/// The last index below `end` that holds `c`, or -1.
pub open spec fn rfind_before(s: Seq<char>, c: char, end: int) -> int
    decreases end,
{
    if end <= 0 {
        -1
    } else if s[end - 1] == c {
        end - 1
    } else {
        rfind_before(s, c, end - 1)
    }
}

/// `strip_end_index` stays within `end` and stops at a character other than `c`.
pub proof fn lemma_strip_end_index(s: Seq<char>, c: char, end: int)
    requires
        0 <= end <= s.len(),
    ensures
        0 <= strip_end_index(s, c, end) <= end,
        strip_end_index(s, c, end) > 0 ==> s[strip_end_index(s, c, end) - 1] != c,
    decreases end,
{
    if end > 0 && s[end - 1] == c {
        lemma_strip_end_index(s, c, end - 1);
    }
}

/// `rfind_before` finds the last `c` below `end`.
pub proof fn lemma_rfind_before(s: Seq<char>, c: char, end: int)
    requires
        0 <= end <= s.len(),
    ensures
        -1 <= rfind_before(s, c, end) < end,
        rfind_before(s, c, end) >= 0 ==> s[rfind_before(s, c, end)] == c,
        forall|j: int| rfind_before(s, c, end) < j < end ==> s[j] != c,
    decreases end,
{
    if end > 0 && s[end - 1] != c {
        lemma_rfind_before(s, c, end - 1);
    }
}

/// The final component of the path text `s[..end]` (`Path::file_name` on Unix): trailing
/// `'/'` and `"."` components are passed over; a last component `".."`, a path that is only
/// `"."`, only `'/'`, or empty has none.
pub open spec fn file_name_upto(s: Seq<char>, end: int) -> Option<Seq<char>>
    decreases end,
{
    if end <= 0 || end > s.len() {
        None
    } else {
        let e = strip_end_index(s, '/', end);
        if e <= 0 {
            None
        } else {
            proof {
                lemma_strip_end_index(s, '/', end);
                lemma_rfind_before(s, '/', e);
            }
            let k = rfind_before(s, '/', e);
            let seg = s.subrange(k + 1, e);
            if seg == seq!['.'] {
                if k < 0 {
                    None
                } else {
                    file_name_upto(s, k)
                }
            } else if seg == seq!['.', '.'] {
                None
            } else {
                Some(seg)
            }
        }
    }
}

/// The final component of the path text `s`.
pub open spec fn file_name_of(s: Seq<char>) -> Option<Seq<char>> {
    file_name_upto(s, s.len() as int)
}

fn is_dot(v: &[char], lo: usize, hi: usize) -> (r: bool)
    requires
        lo <= hi <= v@.len(),
    ensures
        r == (v@.subrange(lo as int, hi as int) == seq!['.']),
{
    let ghost sub = v@.subrange(lo as int, hi as int);
    if hi - lo == 1 {
        assert(sub[0] == v@[lo as int]);
        if v[lo] == '.' {
            assert(sub =~= seq!['.']);
            true
        } else {
            assert(sub[0] != seq!['.'][0]);
            false
        }
    } else {
        assert(sub.len() != seq!['.'].len());
        false
    }
}

fn is_dot_dot(v: &[char], lo: usize, hi: usize) -> (r: bool)
    requires
        lo <= hi <= v@.len(),
    ensures
        r == (v@.subrange(lo as int, hi as int) == seq!['.', '.']),
{
    let ghost sub = v@.subrange(lo as int, hi as int);
    if hi - lo == 2 {
        assert(sub[0] == v@[lo as int]);
        assert(sub[1] == v@[lo + 1]);
        if v[lo] == '.' && v[lo + 1] == '.' {
            assert(sub =~= seq!['.', '.']);
            true
        } else {
            assert(sub[0] != seq!['.', '.'][0] || sub[1] != seq!['.', '.'][1]);
            false
        }
    } else {
        assert(sub.len() != seq!['.', '.'].len());
        false
    }
}

/// `Path::file_name` on the path text `path`.
pub fn file_name(path: &str) -> (r: Option<String>)
    ensures
        match r {
            Some(x) => file_name_of(path@) == Some(x@),
            None => file_name_of(path@) is None,
        },
{
    let v = chars_of(path);
    let mut end: usize = v.len();
    loop
        invariant
            end <= v@.len(),
            file_name_of(path@) == file_name_upto(v@, end as int),
            v@ == path@,
        decreases end,
    {
        if end == 0 {
            return None;
        }
        proof {
            lemma_strip_end_index(v@, '/', end as int);
        }
        let mut e = end;
        while e > 0 && v[e - 1] == '/'
            invariant
                e <= end <= v@.len(),
                strip_end_index(v@, '/', end as int) == strip_end_index(v@, '/', e as int),
            decreases e,
        {
            e = e - 1;
        }
        if e == 0 {
            return None;
        }
        proof {
            lemma_rfind_before(v@, '/', e as int);
        }
        let mut k = e;
        while k > 0 && v[k - 1] != '/'
            invariant
                k <= e <= v@.len(),
                rfind_before(v@, '/', e as int) == rfind_before(v@, '/', k as int),
            decreases k,
        {
            k = k - 1;
        }
        // the component is v[k..e]; a '/' stands at k - 1 when k > 0
        if is_dot(v.as_slice(), k, e) {
            if k == 0 {
                return None;
            }
            end = k - 1;
        } else if is_dot_dot(v.as_slice(), k, e) {
            return None;
        } else {
            let seg = slice_to_vec(v.as_slice(), k, e);
            return Some(string_of(seg.as_slice()));
        }
    }
}


/// The directory part of the path text `s`, up to and with its last `'/'` (empty when it
/// has none): the directory against which a relative symlink is resolved.
pub open spec fn dir_prefix(s: Seq<char>) -> Seq<char> {
    s.subrange(0, rfind_before(s, '/', s.len() as int) + 1)
}

/// Where the symlink at `link_path` points when its link text is `link_text`: an absolute
/// text as it is, a relative one taken from the link's own directory.
pub fn link_target_path(link_path: &str, link_text: &str) -> (r: String)
    ensures
        r@ == joined(dir_prefix(link_path@), link_text@),
{
    let v = chars_of(link_path);
    proof {
        lemma_rfind_before(v@, '/', v@.len() as int);
    }
    let mut k = v.len();
    while k > 0 && v[k - 1] != '/'
        invariant
            k <= v@.len(),
            rfind_before(v@, '/', v@.len() as int) == rfind_before(v@, '/', k as int),
        decreases k,
    {
        k = k - 1;
    }
    let dir = slice_to_vec(v.as_slice(), 0, k);
    join_path(string_of(dir.as_slice()).as_str(), link_text)
}

} // verus!

//! Unix-style path text: the last component, its stem and extension, and the parent.
//!
//! Paths are `/`-separated text. Trailing separators are ignored; `.` components are
//! not removed (as `std::path::Path` would do for such paths).
use vstd::prelude::*;

use crate::text::{slice_copy, trim_end_char, trim_end_char_chars};

verus! {

/// Index of the last occurrence of `c` in `s`.
pub open spec fn rfind_char(s: Seq<char>, c: char) -> Option<int>
    decreases s.len(),
{
    if s.len() == 0 {
        None
    } else if s.last() == c {
        Some(s.len() - 1)
    } else {
        rfind_char(s.drop_last(), c)
    }
}

pub proof fn lemma_rfind_char(s: Seq<char>, c: char)
    ensures
        rfind_char(s, c) matches Some(k) ==> 0 <= k < s.len() && s[k] == c && forall|j: int|
            k < j < s.len() ==> s[j] != c,
        rfind_char(s, c) is None ==> forall|j: int| 0 <= j < s.len() ==> s[j] != c,
    decreases s.len(),
{
    if s.len() > 0 && s.last() != c {
        let d = s.drop_last();
        lemma_rfind_char(d, c);
        assert forall|j: int| 0 <= j < d.len() implies d[j] == s[j] by {}
        if rfind_char(s, c) is None {
            assert forall|j: int| 0 <= j < s.len() implies s[j] != c by {
                if j < d.len() {
                    assert(d[j] == s[j]);
                }
            }
        }
    }
}

pub fn rfind_char_exec(s: &[char], c: char) -> (r: Option<usize>)
    ensures
        r matches Some(k) ==> rfind_char(s@, c) == Some(k as int),
        r is None ==> rfind_char(s@, c) is None,
{
    let mut j = s.len();
    assert(s@.take(j as int) == s@);
    while j > 0
        invariant
            j <= s@.len(),
            rfind_char(s@, c) == rfind_char(s@.take(j as int), c),
        decreases j,
    {
        assert(s@.take(j as int).drop_last() == s@.take(j - 1));
        if s[j - 1] == c {
            return Some(j - 1);
        }
        j -= 1;
    }
    None
}

pub proof fn lemma_trim_end_char_len(s: Seq<char>, c: char)
    ensures
        trim_end_char(s, c).len() <= s.len(),
        trim_end_char(s, c).len() > 0 ==> trim_end_char(s, c).last() != c,
        trim_end_char(s, c) == s.take(trim_end_char(s, c).len() as int),
    decreases s.len(),
{
    if s.len() > 0 && s.last() == c {
        lemma_trim_end_char_len(s.drop_last(), c);
        assert(s.drop_last().take(trim_end_char(s, c).len() as int) =~= s.take(
            trim_end_char(s, c).len() as int,
        ));
    } else {
        assert(s.take(s.len() as int) =~= s);
    }
}

/// The path without trailing separators and trailing `.` components, which
/// `Path::components` leaves out.
pub open spec fn trimmed(path: Seq<char>) -> Seq<char>
    decreases path.len(),
{
    let t = trim_end_char(path, '/');
    if t.len() >= 2 && t.last() == '.' && t[t.len() - 2] == '/' {
        proof {
            lemma_trim_end_char_len(path, '/');
        }
        trimmed(t.drop_last())
    } else {
        t
    }
}

/// The path without trailing separators and trailing `.` components.
pub fn trimmed_chars(path: &[char]) -> (r: Vec<char>)
    ensures
        r@ == trimmed(path@),
{
    let mut t = trim_end_char_chars(path, '/');
    proof {
        lemma_trim_end_char_len(path@, '/');
    }
    while t.len() >= 2 && t[t.len() - 1] == '.' && t[t.len() - 2] == '/'
        invariant
            trimmed(t@) == trimmed(path@),
            t@ == trim_end_char(t@, '/'),
        decreases t.len(),
    {
        let ghost before = t@;
        t.pop();
        assert(t@ =~= before.drop_last());
        proof {
            lemma_trim_end_char_len(t@, '/');
            assert(trimmed(before) == trimmed(t@)) by {
                assert(trim_end_char(before, '/') == before);
            }
        }
        t = trim_end_char_chars(&t, '/');
        proof {
            lemma_trim_end_char_len(t@, '/');
        }
    }
    t
}

/// The last component: the text after the last separator.
pub open spec fn last_component(path: Seq<char>) -> Seq<char> {
    let t = trimmed(path);
    match rfind_char(t, '/') {
        Some(k) => t.subrange(k + 1, t.len() as int),
        None => t,
    }
}

/// `Path::file_name`: the last component, unless it is empty, `.` or `..`.
pub open spec fn file_name(path: Seq<char>) -> Option<Seq<char>> {
    let n = last_component(path);
    if n.len() == 0 || n == ".."@ || n == "."@ {
        None
    } else {
        Some(n)
    }
}

/// Where a file name splits into stem and extension: its last `.`, unless that is the first character.
pub open spec fn dot_split(name: Seq<char>) -> Option<int> {
    match rfind_char(name, '.') {
        Some(k) => if k == 0 {
            None
        } else {
            Some(k)
        },
        None => None,
    }
}

/// `Path::file_stem`.
pub open spec fn file_stem(path: Seq<char>) -> Option<Seq<char>> {
    match file_name(path) {
        None => None,
        Some(n) => match dot_split(n) {
            Some(k) => Some(n.subrange(0, k)),
            None => Some(n),
        },
    }
}

/// `Path::extension`.
pub open spec fn extension(path: Seq<char>) -> Option<Seq<char>> {
    match file_name(path) {
        None => None,
        Some(n) => match dot_split(n) {
            Some(k) => Some(n.subrange(k + 1, n.len() as int)),
            None => None,
        },
    }
}

/// `Path::parent`: everything before the last component; `None` for the root or an empty path.
pub open spec fn parent(path: Seq<char>) -> Option<Seq<char>> {
    let t = trimmed(path);
    if t.len() == 0 {
        None
    } else {
        match rfind_char(t, '/') {
            None => Some(Seq::empty()),
            Some(k) => {
                let pre = trimmed(t.subrange(0, k));
                if pre.len() == 0 {
                    Some(seq!['/'])
                } else {
                    Some(pre)
                }
            },
        }
    }
}

fn last_component_chars(path: &[char]) -> (r: Vec<char>)
    ensures
        r@ == last_component(path@),
{
    let t = trimmed_chars(path);
    let tl = t.len();
    match rfind_char_exec(&t, '/') {
        Some(k) => {
            proof {
                lemma_rfind_char(t@, '/');
            }
            assert(k < tl);
            slice_copy(&t, k + 1, tl)
        },
        None => {
            assert(t@.subrange(0, t@.len() as int) == t@);
            slice_copy(&t, 0, t.len())
        },
    }
}

pub fn file_name_chars(path: &[char]) -> (r: Option<Vec<char>>)
    ensures
        match file_name(path@) {
            Some(n) => r matches Some(v) && v@ == n,
            None => r is None,
        },
{
    let n = last_component_chars(path);
    proof {
        reveal_strlit("..");
        reveal_strlit(".");
    }
    if n.len() == 0 || (n.len() == 2 && n[0] == '.' && n[1] == '.') || (n.len() == 1 && n[0] == '.') {
        assert(n.len() == 2 && n[0] == '.' && n[1] == '.' ==> n@ =~= ".."@);
        assert(n.len() == 1 && n[0] == '.' ==> n@ =~= "."@);
        None
    } else {
        assert(n@ != ".."@ ==> !(n@.len() == 2 && n@[0] == '.' && n@[1] == '.'));
        Some(n)
    }
}

pub fn file_stem_chars(path: &[char]) -> (r: Option<Vec<char>>)
    ensures
        match file_stem(path@) {
            Some(n) => r matches Some(v) && v@ == n,
            None => r is None,
        },
{
    match file_name_chars(path) {
        None => None,
        Some(n) => {
            proof {
                lemma_rfind_char(n@, '.');
            }
            match rfind_char_exec(&n, '.') {
                Some(k) => if k == 0 {
                    Some(n)
                } else {
                    Some(slice_copy(&n, 0, k))
                },
                None => Some(n),
            }
        },
    }
}

pub fn extension_chars(path: &[char]) -> (r: Option<Vec<char>>)
    ensures
        match extension(path@) {
            Some(n) => r matches Some(v) && v@ == n,
            None => r is None,
        },
{
    match file_name_chars(path) {
        None => None,
        Some(n) => {
            proof {
                lemma_rfind_char(n@, '.');
            }
            match rfind_char_exec(&n, '.') {
                Some(k) => if k == 0 {
                    None
                } else {
                    let nl = n.len();
                    assert(k < nl);
                    Some(slice_copy(&n, k + 1, nl))
                },
                None => None,
            }
        },
    }
}

pub fn parent_chars(path: &[char]) -> (r: Option<Vec<char>>)
    ensures
        match parent(path@) {
            Some(n) => r matches Some(v) && v@ == n,
            None => r is None,
        },
{
    let t = trimmed_chars(path);
    if t.len() == 0 {
        return None;
    }
    match rfind_char_exec(&t, '/') {
        None => Some(Vec::new()),
        Some(k) => {
            proof {
                lemma_rfind_char(t@, '/');
            }
            let head = slice_copy(&t, 0, k);
            let pre = trimmed_chars(&head);
            if pre.len() == 0 {
                let mut v = Vec::new();
                v.push('/');
                Some(v)
            } else {
                Some(pre)
            }
        },
    }
}

/// `Path::join`: an absolute `file` replaces the base; otherwise it is appended with one
/// separator between.
pub open spec fn join(base: Seq<char>, file: Seq<char>) -> Seq<char> {
    if file.len() > 0 && file[0] == '/' {
        file
    } else if base.len() == 0 {
        file
    } else if base.last() == '/' {
        base + file
    } else {
        base + seq!['/'] + file
    }
}

pub fn join_chars(base: &[char], file: &[char]) -> (r: Vec<char>)
    ensures
        r@ == join(base@, file@),
{
    if file.len() > 0 && file[0] == '/' {
        return slice_copy(file, 0, file.len());
    }
    let mut r = slice_copy(base, 0, base.len());
    assert(base@.subrange(0, base@.len() as int) =~= base@);
    assert(file@.subrange(0, file@.len() as int) =~= file@);
    if base.len() > 0 && base[base.len() - 1] != '/' {
        r.push('/');
    }
    let f = slice_copy(file, 0, file.len());
    let ghost r0 = r@;
    let mut i: usize = 0;
    while i < f.len()
        invariant
            i <= f@.len(),
            f@ == file@,
            r@ == r0 + f@.take(i as int),
        decreases f.len() - i,
    {
        r.push(f[i]);
        i += 1;
        assert(r@ =~= r0 + f@.take(i as int));
    }
    assert(f@.take(f@.len() as int) =~= f@);
    r
}

/// The path ends with the components of `tail`, written with single separators: the trimmed
/// path is `tail` or ends with `/` and `tail`.
pub open spec fn ends_with_components(path: Seq<char>, tail: Seq<char>) -> bool {
    let t = trimmed(path);
    t == tail || (t.len() > tail.len() && t.subrange(t.len() - tail.len(), t.len() as int) == tail
        && t[t.len() - tail.len() - 1] == '/')
}

} // verus!

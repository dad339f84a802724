//! Character-sequence helpers shared by the formatting, tag and Serato modules.
//!
//! Text is handled as `Vec<char>` inside the library; the specifications speak
//! of `Seq<char>`, which is also the view of `String` and `str`.
use vstd::prelude::*;

verus! {

// ---------------------------------------------------------------------------
// Specifications
// ---------------------------------------------------------------------------

/// `pat` occurs in `s` starting at index `i`.
pub open spec fn matches_at(s: Seq<char>, pat: Seq<char>, i: int) -> bool {
    0 <= i && i + pat.len() <= s.len() && s.subrange(i, i + pat.len()) == pat
}

pub open spec fn starts_with(s: Seq<char>, pat: Seq<char>) -> bool {
    matches_at(s, pat, 0)
}

pub open spec fn ends_with(s: Seq<char>, pat: Seq<char>) -> bool {
    pat.len() <= s.len() && matches_at(s, pat, s.len() - pat.len())
}

pub open spec fn contains(s: Seq<char>, pat: Seq<char>) -> bool {
    exists|i: int| matches_at(s, pat, i)
}

/// Index of the first occurrence of `pat` in `s` at or after `from`.
pub open spec fn find_from(s: Seq<char>, pat: Seq<char>, from: int) -> Option<int>
    decreases s.len() - from,
{
    if from < 0 || from >= s.len() || from + pat.len() > s.len() {
        None
    } else if matches_at(s, pat, from) {
        Some(from)
    } else {
        find_from(s, pat, from + 1)
    }
}

/// Index of the first occurrence of `pat` in `s`.
pub open spec fn find(s: Seq<char>, pat: Seq<char>) -> Option<int> {
    find_from(s, pat, 0)
}

/// `str::replace`: every non-overlapping occurrence of `pat`, scanning from the left, becomes `rep`.
pub open spec fn replace(s: Seq<char>, pat: Seq<char>, rep: Seq<char>) -> Seq<char>
    decreases s.len(),
{
    if s.len() == 0 || pat.len() == 0 {
        s
    } else if starts_with(s, pat) {
        rep + replace(s.skip(pat.len() as int), pat, rep)
    } else {
        seq![s[0]] + replace(s.drop_first(), pat, rep)
    }
}

/// `str::replacen`: like `replace`, for the first `n` occurrences only.
pub open spec fn replacen(s: Seq<char>, pat: Seq<char>, rep: Seq<char>, n: nat) -> Seq<char>
    decreases s.len(),
{
    if s.len() == 0 || pat.len() == 0 || n == 0 {
        s
    } else if starts_with(s, pat) {
        rep + replacen(s.skip(pat.len() as int), pat, rep, (n - 1) as nat)
    } else {
        seq![s[0]] + replacen(s.drop_first(), pat, rep, n)
    }
}

/// Unicode `White_Space`, the property that `char::is_whitespace` tests.
pub open spec fn is_whitespace(c: char) -> bool {
    let u = c as u32;
    (0x09 <= u && u <= 0x0d) || u == 0x20 || u == 0x85 || u == 0xa0 || u == 0x1680 || (0x2000 <= u
        && u <= 0x200a) || u == 0x2028 || u == 0x2029 || u == 0x202f || u == 0x205f || u == 0x3000
}

/// `str::trim_start`.
pub open spec fn trim_start(s: Seq<char>) -> Seq<char>
    decreases s.len(),
{
    if s.len() > 0 && is_whitespace(s[0]) {
        trim_start(s.drop_first())
    } else {
        s
    }
}

/// `str::trim_end`.
pub open spec fn trim_end(s: Seq<char>) -> Seq<char>
    decreases s.len(),
{
    if s.len() > 0 && is_whitespace(s.last()) {
        trim_end(s.drop_last())
    } else {
        s
    }
}

/// `str::trim`.
pub open spec fn trim(s: Seq<char>) -> Seq<char> {
    trim_end(trim_start(s))
}

/// `str::trim_start_matches` with a string pattern: strip `pat` from the front while it is there.
pub open spec fn trim_start_matches(s: Seq<char>, pat: Seq<char>) -> Seq<char>
    decreases s.len(),
{
    if pat.len() > 0 && starts_with(s, pat) {
        trim_start_matches(s.skip(pat.len() as int), pat)
    } else {
        s
    }
}

/// `str::trim_end_matches` with a single character.
pub open spec fn trim_end_char(s: Seq<char>, c: char) -> Seq<char>
    decreases s.len(),
{
    if s.len() > 0 && s.last() == c {
        trim_end_char(s.drop_last(), c)
    } else {
        s
    }
}

/// Number of occurrences of `c` in `s`.
pub open spec fn count_char(s: Seq<char>, c: char) -> nat
    decreases s.len(),
{
    if s.len() == 0 {
        0
    } else {
        (if s.last() == c { 1nat } else { 0nat }) + count_char(s.drop_last(), c)
    }
}

// ---------------------------------------------------------------------------
// Conversions
// ---------------------------------------------------------------------------

/// `String::push` appends one character.
#[verifier::external_body]
pub(crate) fn push_char(s: &mut String, c: char)
    ensures
        final(s)@ == old(s)@.push(c),
{
    s.push(c)
}

/// Collect the characters of a string slice.
pub fn to_chars(s: &str) -> (v: Vec<char>)
    ensures
        v@ == s@,
{
    let mut v: Vec<char> = Vec::new();
    for c in it: s.chars()
        invariant
            v@ == it.seq().take(it.index() as int),
    {
        v.push(c);
    }
    v
}

/// Build a `String` from characters.
pub fn from_chars(v: &[char]) -> (s: String)
    ensures
        s@ == v@,
{
    let mut s = String::new();
    let mut i: usize = 0;
    while i < v.len()
        invariant
            i <= v.len(),
            s@ == v@.take(i as int),
        decreases v.len() - i,
    {
        push_char(&mut s, v[i]);
        assert(v@.take(i + 1) == v@.take(i as int).push(v@[i as int]));
        i += 1;
    }
    assert(v@.take(v@.len() as int) == v@);
    s
}

// ---------------------------------------------------------------------------
// Searching
// ---------------------------------------------------------------------------

pub fn char_is_whitespace(c: char) -> (b: bool)
    ensures
        b == is_whitespace(c),
{
    let u = c as u32;
    (0x09 <= u && u <= 0x0d) || u == 0x20 || u == 0x85 || u == 0xa0 || u == 0x1680 || (0x2000 <= u
        && u <= 0x200a) || u == 0x2028 || u == 0x2029 || u == 0x202f || u == 0x205f || u == 0x3000
}

/// Does `pat` occur in `s` at index `i`?
pub fn match_at(s: &[char], pat: &[char], i: usize) -> (b: bool)
    ensures
        b == matches_at(s@, pat@, i as int),
{
    if i > s.len() || pat.len() > s.len() - i {
        return false;
    }
    let mut j: usize = 0;
    while j < pat.len()
        invariant
            j <= pat.len(),
            i + pat.len() <= s.len(),
            forall|k: int| 0 <= k < j ==> s@[i + k] == pat@[k],
        decreases pat.len() - j,
    {
        if s[i + j] != pat[j] {
            assert(s@.subrange(i as int, i + pat.len())[j as int] != pat@[j as int]);
            return false;
        }
        j += 1;
    }
    assert(s@.subrange(i as int, i + pat.len()) =~= pat@);
    true
}

pub fn seq_starts_with(s: &[char], pat: &[char]) -> (b: bool)
    ensures
        b == starts_with(s@, pat@),
{
    match_at(s, pat, 0)
}

pub fn seq_ends_with(s: &[char], pat: &[char]) -> (b: bool)
    ensures
        b == ends_with(s@, pat@),
{
    if pat.len() > s.len() {
        false
    } else {
        match_at(s, pat, s.len() - pat.len())
    }
}

proof fn lemma_find_from_none(s: Seq<char>, pat: Seq<char>, from: int)
    requires
        0 <= from,
        pat.len() > 0,
    ensures
        find_from(s, pat, from) is None ==> forall|k: int| from <= k ==> !matches_at(s, pat, k),
        find_from(s, pat, from) matches Some(k) ==> from <= k && matches_at(s, pat, k) && forall|
            j: int,
        | from <= j < k ==> !matches_at(s, pat, j),
    decreases s.len() - from,
{
    if from < s.len() && from + pat.len() <= s.len() && !matches_at(s, pat, from) {
        lemma_find_from_none(s, pat, from + 1);
    }
}

pub proof fn lemma_find_from_some(s: Seq<char>, pat: Seq<char>, from: int)
    ensures
        find_from(s, pat, from) matches Some(k) ==> from <= k && k < s.len() && k + pat.len()
            <= s.len() && matches_at(s, pat, k),
    decreases s.len() - from,
{
    if from >= 0 && from < s.len() && from + pat.len() <= s.len() && !matches_at(s, pat, from) {
        lemma_find_from_some(s, pat, from + 1);
    }
}

/// First index at or after `from` where `pat` occurs.
pub fn find_seq_from(s: &[char], pat: &[char], from: usize) -> (r: Option<usize>)
    ensures
        r matches Some(k) ==> find_from(s@, pat@, from as int) == Some(k as int),
        r is None ==> find_from(s@, pat@, from as int) is None,
{
    let mut i = from;
    if i > s.len() || pat.len() > s.len() - i {
        return None;
    }
    while i < s.len() && i <= s.len() - pat.len()
        invariant
            from <= i <= s.len(),
            pat.len() <= s.len(),
            find_from(s@, pat@, from as int) == find_from(s@, pat@, i as int),
        decreases s.len() - i,
    {
        if match_at(s, pat, i) {
            return Some(i);
        }
        i += 1;
    }
    None
}

/// First index where `pat` occurs.
pub fn find_seq(s: &[char], pat: &[char]) -> (r: Option<usize>)
    ensures
        r matches Some(k) ==> find(s@, pat@) == Some(k as int),
        r is None ==> find(s@, pat@) is None,
{
    find_seq_from(s, pat, 0)
}

pub proof fn lemma_find_contains(s: Seq<char>, pat: Seq<char>)
    requires
        pat.len() > 0,
    ensures
        find(s, pat) is Some <==> contains(s, pat),
        find(s, pat) matches Some(k) ==> matches_at(s, pat, k),
{
    lemma_find_from_none(s, pat, 0);
    if find(s, pat) is None {
        assert forall|k: int| !matches_at(s, pat, k) by {
            if k < 0 {
            }
        }
    }
}

pub fn seq_contains(s: &[char], pat: &[char]) -> (b: bool)
    ensures
        b == contains(s@, pat@),
{
    if pat.len() == 0 {
        assert(s@.subrange(0, 0) =~= pat@);
        assert(matches_at(s@, pat@, 0));
        return true;
    }
    proof {
        lemma_find_contains(s@, pat@);
    }
    find_seq(s, pat).is_some()
}

pub fn contains_char(s: &[char], c: char) -> (b: bool)
    ensures
        b == s@.contains(c),
{
    let mut i: usize = 0;
    while i < s.len()
        invariant
            i <= s.len(),
            forall|k: int| 0 <= k < i ==> s@[k] != c,
        decreases s.len() - i,
    {
        if s[i] == c {
            return true;
        }
        i += 1;
    }
    false
}

// ---------------------------------------------------------------------------
// Building
// ---------------------------------------------------------------------------

pub fn extend(v: &mut Vec<char>, w: &[char])
    ensures
        final(v)@ == old(v)@ + w@,
{
    let mut i: usize = 0;
    while i < w.len()
        invariant
            i <= w.len(),
            v@ == old(v)@ + w@.take(i as int),
        decreases w.len() - i,
    {
        v.push(w[i]);
        assert(w@.take(i + 1) == w@.take(i as int).push(w@[i as int]));
        i += 1;
    }
    assert(w@.take(w@.len() as int) == w@);
}

/// Copy of `s[from..to]`.
pub fn slice_copy(s: &[char], from: usize, to: usize) -> (r: Vec<char>)
    requires
        from <= to <= s.len(),
    ensures
        r@ == s@.subrange(from as int, to as int),
{
    let mut r: Vec<char> = Vec::new();
    let mut i = from;
    while i < to
        invariant
            from <= i <= to <= s.len(),
            r@ == s@.subrange(from as int, i as int),
        decreases to - i,
    {
        r.push(s[i]);
        assert(s@.subrange(from as int, i + 1) == s@.subrange(from as int, i as int).push(
            s@[i as int],
        ));
        i += 1;
    }
    r
}

pub fn concat(a: &[char], b: &[char]) -> (r: Vec<char>)
    ensures
        r@ == a@ + b@,
{
    let mut r = slice_copy(a, 0, a.len());
    assert(a@.subrange(0, a@.len() as int) == a@);
    extend(&mut r, b);
    r
}

proof fn lemma_replace_step(s: Seq<char>, pat: Seq<char>, rep: Seq<char>, i: int)
    requires
        0 <= i < s.len(),
        pat.len() > 0,
    ensures
        matches_at(s, pat, i) ==> replace(s.skip(i), pat, rep) == rep + replace(
            s.skip(i + pat.len()),
            pat,
            rep,
        ),
        !matches_at(s, pat, i) ==> replace(s.skip(i), pat, rep) == seq![s[i]] + replace(
            s.skip(i + 1),
            pat,
            rep,
        ),
{
    let t = s.skip(i);
    if matches_at(s, pat, i) {
        assert(t.take(pat.len() as int) == s.subrange(i, i + pat.len()));
        assert(t.skip(pat.len() as int) == s.skip(i + pat.len()));
    } else {
        if pat.len() <= t.len() {
            assert(t.subrange(0, pat.len() as int) == s.subrange(i, i + pat.len()));
        }
        assert(t.drop_first() == s.skip(i + 1));
    }
}

/// `str::replace` on character vectors.
pub fn replace_all(s: &[char], pat: &[char], rep: &[char]) -> (r: Vec<char>)
    ensures
        r@ == replace(s@, pat@, rep@),
{
    if pat.len() == 0 {
        return slice_copy(s, 0, s.len());
    }
    let mut r: Vec<char> = Vec::new();
    let mut i: usize = 0;
    assert(s@.skip(0) == s@);
    while i < s.len()
        invariant
            i <= s.len(),
            pat.len() > 0,
            r@ + replace(s@.skip(i as int), pat@, rep@) == replace(s@, pat@, rep@),
        decreases s.len() - i,
    {
        proof {
            lemma_replace_step(s@, pat@, rep@, i as int);
        }
        if match_at(s, pat, i) {
            let ghost old_r = r@;
            extend(&mut r, rep);
            assert(old_r + (rep@ + replace(s@.skip(i + pat.len()), pat@, rep@)) == r@ + replace(
                s@.skip(i + pat.len()),
                pat@,
                rep@,
            ));
            i += pat.len();
        } else {
            let ghost old_r = r@;
            r.push(s[i]);
            assert(old_r + (seq![s@[i as int]] + replace(s@.skip(i + 1), pat@, rep@)) == r@
                + replace(s@.skip(i + 1), pat@, rep@));
            i += 1;
        }
    }
    assert(s@.skip(i as int).len() == 0);
    assert(r@ + s@.skip(i as int) == r@);
    r
}


proof fn lemma_replacen_step(s: Seq<char>, pat: Seq<char>, rep: Seq<char>, n: nat, i: int)
    requires
        0 <= i < s.len(),
        pat.len() > 0,
        n > 0,
    ensures
        matches_at(s, pat, i) ==> replacen(s.skip(i), pat, rep, n) == rep + replacen(
            s.skip(i + pat.len()),
            pat,
            rep,
            (n - 1) as nat,
        ),
        !matches_at(s, pat, i) ==> replacen(s.skip(i), pat, rep, n) == seq![s[i]] + replacen(
            s.skip(i + 1),
            pat,
            rep,
            n,
        ),
{
    let t = s.skip(i);
    if matches_at(s, pat, i) {
        assert(t.take(pat.len() as int) == s.subrange(i, i + pat.len()));
        assert(t.skip(pat.len() as int) == s.skip(i + pat.len()));
    } else {
        if pat.len() <= t.len() {
            assert(t.subrange(0, pat.len() as int) == s.subrange(i, i + pat.len()));
        }
        assert(t.drop_first() == s.skip(i + 1));
    }
}

/// `str::replacen` on character vectors: the first `n` occurrences of `pat` become `rep`.
pub fn replacen_chars(s: &[char], pat: &[char], rep: &[char], n: usize) -> (r: Vec<char>)
    ensures
        r@ == replacen(s@, pat@, rep@, n as nat),
{
    if pat.len() == 0 || n == 0 {
        return slice_copy(s, 0, s.len());
    }
    let mut r: Vec<char> = Vec::new();
    let mut i: usize = 0;
    let mut k: usize = n;
    assert(s@.skip(0) == s@);
    while i < s.len() && k > 0
        invariant
            i <= s.len(),
            pat.len() > 0,
            r@ + replacen(s@.skip(i as int), pat@, rep@, k as nat) == replacen(s@, pat@, rep@, n as nat),
        decreases s.len() - i,
    {
        proof {
            lemma_replacen_step(s@, pat@, rep@, k as nat, i as int);
        }
        if match_at(s, pat, i) {
            let ghost old_r = r@;
            extend(&mut r, rep);
            assert(old_r + (rep@ + replacen(s@.skip(i + pat.len()), pat@, rep@, (k - 1) as nat)) == r@
                + replacen(s@.skip(i + pat.len()), pat@, rep@, (k - 1) as nat));
            i += pat.len();
            k -= 1;
        } else {
            let ghost old_r = r@;
            r.push(s[i]);
            assert(old_r + (seq![s@[i as int]] + replacen(s@.skip(i + 1), pat@, rep@, k as nat)) == r@
                + replacen(s@.skip(i + 1), pat@, rep@, k as nat));
            i += 1;
        }
    }
    assert(replacen(s@.skip(i as int), pat@, rep@, k as nat) == s@.skip(i as int));
    assert(s@.skip(i as int) == s@.subrange(i as int, s@.len() as int));
    let rest = slice_copy(s, i, s.len());
    extend(&mut r, &rest);
    r
}

/// A text without whitespace at either end.
pub open spec fn is_trimmed(s: Seq<char>) -> bool {
    s.len() > 0 ==> !is_whitespace(s[0]) && !is_whitespace(s.last())
}

proof fn lemma_trim_start_front(s: Seq<char>)
    ensures
        trim_start(s).len() > 0 ==> !is_whitespace(trim_start(s)[0]),
    decreases s.len(),
{
    if s.len() > 0 && is_whitespace(s[0]) {
        lemma_trim_start_front(s.drop_first());
    }
}

proof fn lemma_trim_end_keeps_front(s: Seq<char>)
    ensures
        trim_end(s).len() > 0 ==> trim_end(s)[0] == s[0] && !is_whitespace(trim_end(s).last()),
        s.len() > 0 && !is_whitespace(s[0]) ==> trim_end(s).len() > 0,
    decreases s.len(),
{
    if s.len() > 0 && is_whitespace(s.last()) {
        lemma_trim_end_keeps_front(s.drop_last());
        if s.len() > 1 {
            assert(s.drop_last()[0] == s[0]);
        }
    }
}

/// `trim` leaves no whitespace at either end.
pub proof fn lemma_trim_is_trimmed(s: Seq<char>)
    ensures
        is_trimmed(trim(s)),
{
    lemma_trim_start_front(s);
    lemma_trim_end_keeps_front(trim_start(s));
}

} // verus!

verus! {

/// Equality of two string slices by their characters.
pub fn str_eq(a: &str, b: &str) -> (r: bool)
    ensures
        r == (a@ == b@),
{
    let x = to_chars(a);
    let y = to_chars(b);
    chars_eq(&x, &y)
}

/// Equality of two character slices.
pub fn chars_eq(x: &[char], y: &[char]) -> (r: bool)
    ensures
        r == (x@ == y@),
{
    if x.len() != y.len() {
        return false;
    }
    let mut i: usize = 0;
    while i < x.len()
        invariant
            i <= x.len() == y.len(),
            forall|k: int| 0 <= k < i ==> x@[k] == y@[k],
        decreases x.len() - i,
    {
        if x[i] != y[i] {
            return false;
        }
        i += 1;
    }
    assert(x@ =~= y@);
    true
}

} // verus!

verus! {

proof fn lemma_trim_start_skip(s: Seq<char>, i: int)
    requires
        0 <= i < s.len(),
        is_whitespace(s[i]),
    ensures
        trim_start(s.skip(i)) == trim_start(s.skip(i + 1)),
{
    assert(s.skip(i).drop_first() == s.skip(i + 1));
}

proof fn lemma_trim_end_take(s: Seq<char>, j: int)
    requires
        0 < j <= s.len(),
        is_whitespace(s[j - 1]),
    ensures
        trim_end(s.take(j)) == trim_end(s.take(j - 1)),
{
    assert(s.take(j).drop_last() == s.take(j - 1));
}

proof fn lemma_trim_end_char_take(s: Seq<char>, c: char, j: int)
    requires
        0 < j <= s.len(),
        s[j - 1] == c,
    ensures
        trim_end_char(s.take(j), c) == trim_end_char(s.take(j - 1), c),
{
    assert(s.take(j).drop_last() == s.take(j - 1));
}

/// `str::trim_start`.
pub fn trim_start_chars(s: &[char]) -> (r: Vec<char>)
    ensures
        r@ == trim_start(s@),
{
    let mut i: usize = 0;
    assert(s@.skip(0) == s@);
    while i < s.len() && char_is_whitespace(s[i])
        invariant
            i <= s.len(),
            trim_start(s@.skip(i as int)) == trim_start(s@),
        decreases s.len() - i,
    {
        proof {
            lemma_trim_start_skip(s@, i as int);
        }
        i += 1;
    }
    assert(s@.skip(i as int) == s@.subrange(i as int, s@.len() as int));
    slice_copy(s, i, s.len())
}

/// `str::trim_end`.
pub fn trim_end_chars(s: &[char]) -> (r: Vec<char>)
    ensures
        r@ == trim_end(s@),
{
    let mut j: usize = s.len();
    assert(s@.take(s@.len() as int) == s@);
    while j > 0 && char_is_whitespace(s[j - 1])
        invariant
            j <= s.len(),
            trim_end(s@.take(j as int)) == trim_end(s@),
        decreases j,
    {
        proof {
            lemma_trim_end_take(s@, j as int);
        }
        j -= 1;
    }
    assert(s@.take(j as int) == s@.subrange(0, j as int));
    slice_copy(s, 0, j)
}

/// `str::trim`.
pub fn trim_chars(s: &[char]) -> (r: Vec<char>)
    ensures
        r@ == trim(s@),
{
    let t = trim_start_chars(s);
    trim_end_chars(&t)
}

/// `str::trim_end_matches` with one character.
pub fn trim_end_char_chars(s: &[char], c: char) -> (r: Vec<char>)
    ensures
        r@ == trim_end_char(s@, c),
{
    let mut j: usize = s.len();
    assert(s@.take(s@.len() as int) == s@);
    while j > 0 && s[j - 1] == c
        invariant
            j <= s.len(),
            trim_end_char(s@.take(j as int), c) == trim_end_char(s@, c),
        decreases j,
    {
        proof {
            lemma_trim_end_char_take(s@, c, j as int);
        }
        j -= 1;
    }
    assert(s@.take(j as int) == s@.subrange(0, j as int));
    slice_copy(s, 0, j)
}

/// `str::trim_start_matches` with a string pattern.
pub fn trim_start_matches_chars(s: &[char], pat: &[char]) -> (r: Vec<char>)
    ensures
        r@ == trim_start_matches(s@, pat@),
{
    if pat.len() == 0 {
        return slice_copy(s, 0, s.len());
    }
    let mut i: usize = 0;
    assert(s@.skip(0) == s@);
    while match_at(s, pat, i)
        invariant
            i <= s.len(),
            pat.len() > 0,
            trim_start_matches(s@.skip(i as int), pat@) == trim_start_matches(s@, pat@),
        decreases s.len() - i,
    {
        assert(s@.skip(i as int).take(pat.len() as int) == s@.subrange(i as int, i + pat.len()));
        assert(s@.skip(i as int).skip(pat.len() as int) == s@.skip(i + pat.len()));
        i += pat.len();
    }
    proof {
        if pat.len() <= s@.skip(i as int).len() {
            assert(s@.skip(i as int).take(pat.len() as int) == s@.subrange(
                i as int,
                i + pat.len(),
            ));
        }
    }
    assert(s@.skip(i as int) == s@.subrange(i as int, s@.len() as int));
    slice_copy(s, i, s.len())
}

/// A text without whitespace at either end is its own `trim`.
pub proof fn lemma_trim_of_trimmed(s: Seq<char>)
    requires
        is_trimmed(s),
    ensures
        trim(s) == s,
{
    assert(trim_start(s) == s);
    assert(trim_end(s) == s);
}

/// The first occurrence at or after `from` is at `k` when `pat` occurs at `k` and nowhere in
/// between.
pub proof fn lemma_find_from_first(s: Seq<char>, pat: Seq<char>, from: int, k: int)
    requires
        0 <= from <= k,
        k < s.len(),
        matches_at(s, pat, k),
        forall|j: int| from <= j < k ==> !matches_at(s, pat, j),
    ensures
        find_from(s, pat, from) == Some(k),
    decreases k - from,
{
    if from < k {
        lemma_find_from_first(s, pat, from + 1, k);
    }
}

} // verus!

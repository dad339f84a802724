//! Artist, title, album and filename formatting rules.
use vstd::prelude::*;

use crate::regexes::{
    regex_find, regex_first_match, regex_is_match, regex_matches, regex_replace_all,
    regex_replaced,
};
use crate::paths::{rfind_char, rfind_char_exec};
use crate::unicode::{title_cased, titlecase, to_uppercase, uppercase};
use crate::text::{
    concat, contains, count_char, extend, find, find_from, find_seq, find_seq_from, from_chars,
    lemma_find_from_some, replace, replace_all, replacen, replacen_chars, slice_copy, to_chars,
    seq_contains, starts_with, trim, trim_chars, is_trimmed, lemma_trim_is_trimmed, trim_start_matches, trim_start_matches_chars,
    chars_eq, seq_starts_with,
};

verus! {

// ---------------------------------------------------------------------------
// Substitution tables
// ---------------------------------------------------------------------------

/// A table of `(pattern, replacement)` pairs, by their text.
pub open spec fn pairs_view(t: Seq<(&str, &str)>) -> Seq<(Seq<char>, Seq<char>)> {
    t.map_values(|p: (&str, &str)| (p.0@, p.1@))
}

/// Apply `str::replace` with each pair of the table in turn.
pub open spec fn substituted(s: Seq<char>, t: Seq<(Seq<char>, Seq<char>)>) -> Seq<char>
    decreases t.len(),
{
    if t.len() == 0 {
        s
    } else {
        substituted(replace(s, t[0].0, t[0].1), t.drop_first())
    }
}

/// Apply a regular-expression replacement with each pair of the table in turn.
pub open spec fn regex_substituted(s: Seq<char>, t: Seq<(Seq<char>, Seq<char>)>) -> Seq<char>
    decreases t.len(),
{
    if t.len() == 0 {
        s
    } else {
        regex_substituted(regex_replaced(t[0].0, s, t[0].1), t.drop_first())
    }
}

/// Replace each pattern of the table with its replacement, in the table's order.
pub fn substitute_all(s: &str, table: &Vec<(&str, &str)>) -> (r: String)
    ensures
        r@ == substituted(s@, pairs_view(table@)),
{
    let ghost t = pairs_view(table@);
    let mut cur = to_chars(s);
    let mut i: usize = 0;
    assert(t.skip(0) =~= t);
    while i < table.len()
        invariant
            i <= table@.len(),
            t == pairs_view(table@),
            substituted(cur@, t.skip(i as int)) == substituted(s@, t),
        decreases table.len() - i,
    {
        let (p, rep) = table[i];
        let pc = to_chars(p);
        let rc = to_chars(rep);
        assert(t.skip(i as int).drop_first() =~= t.skip(i + 1));
        assert(t.skip(i as int)[0] == (p@, rep@));
        cur = replace_all(&cur, &pc, &rc);
        i += 1;
    }
    assert(t.skip(i as int) =~= Seq::<(Seq<char>, Seq<char>)>::empty());
    from_chars(&cur)
}

/// Apply each regular-expression replacement of the table, in the table's order.
pub fn regex_substitute_all(s: &str, table: &Vec<(&str, &str)>) -> (r: String)
    ensures
        r@ == regex_substituted(s@, pairs_view(table@)),
{
    let ghost t = pairs_view(table@);
    let mut cur = s.to_string();
    let mut i: usize = 0;
    assert(t.skip(0) =~= t);
    while i < table.len()
        invariant
            i <= table@.len(),
            t == pairs_view(table@),
            regex_substituted(cur@, t.skip(i as int)) == regex_substituted(s@, t),
        decreases table.len() - i,
    {
        let (p, rep) = table[i];
        assert(t.skip(i as int).drop_first() =~= t.skip(i + 1));
        assert(t.skip(i as int)[0] == (p@, rep@));
        cur = regex_replace_all(p, cur.as_str(), rep);
        i += 1;
    }
    assert(t.skip(i as int) =~= Seq::<(Seq<char>, Seq<char>)>::empty());
    cur
}

// ---------------------------------------------------------------------------
// Whitespace, album and filename
// ---------------------------------------------------------------------------

/// Two or more whitespace characters.
pub const RE_MULTIPLE_SPACES: &'static str = "\\s{2,}";

/// A leading `www.`, in any case.
pub const RE_WWW: &'static str = "(?i)^www\\.";

/// Runs of whitespace collapse to one space; then the text is trimmed.
pub open spec fn spec_fix_whitespace(s: Seq<char>) -> Seq<char> {
    trim(regex_replaced(RE_MULTIPLE_SPACES@, s, " "@))
}

/// A trimmed album name without a leading `www.`, whitespace collapsed.
pub open spec fn spec_format_album(s: Seq<char>) -> Seq<char> {
    spec_fix_whitespace(regex_replaced(RE_WWW@, trim(s), ""@))
}

pub(crate) fn trim_string(s: &str) -> (r: String)
    ensures
        r@ == trim(s@),
{
    let c = to_chars(s);
    let t = trim_chars(&c);
    from_chars(&t)
}

/// Collapse runs of whitespace to one space and trim the ends.
pub fn fix_whitespace(text: &mut String)
    ensures
        final(text)@ == spec_fix_whitespace(old(text)@),
{
    let collapsed = regex_replace_all(RE_MULTIPLE_SPACES, text.as_str(), " ");
    *text = trim_string(collapsed.as_str());
}

/// Format an album name.
pub fn format_album(album: &str) -> (r: String)
    ensures
        r@ == spec_format_album(album@),
{
    let trimmed = trim_string(album);
    let mut formatted = regex_replace_all(RE_WWW, trimmed.as_str(), "");
    fix_whitespace(&mut formatted);
    formatted
}

/// Substitutions for characters that are not allowed in filenames, and for runs of
/// whitespace.
pub open spec fn filename_substitutes() -> Seq<(Seq<char>, Seq<char>)> {
    seq![("([\\\\/<>|:*?])"@, "-"@), ("\\s+"@, " "@)]
}

fn filename_substitutes_table() -> (t: Vec<(&'static str, &'static str)>)
    ensures
        pairs_view(t@) == filename_substitutes(),
{
    let t = vec![("([\\\\/<>|:*?])", "-"), ("\\s+", " ")];
    assert(pairs_view(t@) =~= filename_substitutes());
    t
}

/// One filename field: double quotes become two single quotes, the substitutions apply, and
/// the ends are trimmed.
pub open spec fn spec_filename_field(s: Seq<char>) -> Seq<char> {
    trim(regex_substituted(replace(s, "\""@, "''"@), filename_substitutes()))
}

fn filename_field(s: &str, table: &Vec<(&str, &str)>) -> (r: String)
    requires
        pairs_view(table@) == filename_substitutes(),
    ensures
        r@ == spec_filename_field(s@),
{
    let quote = to_chars("\"");
    let two = to_chars("''");
    let replaced = from_chars(&replace_all(&to_chars(s), &quote, &two));
    let substituted = regex_substitute_all(replaced.as_str(), table);
    trim_string(substituted.as_str())
}

/// Apply filename formatting to artist and title.
pub fn format_filename(artist: &str, title: &str) -> (r: (String, String))
    ensures
        r.0@ == spec_filename_field(artist@),
        r.1@ == spec_filename_field(title@),
{
    let table = filename_substitutes_table();
    (filename_field(artist, &table), filename_field(title, &table))
}

// ---------------------------------------------------------------------------
// Parentheses
// ---------------------------------------------------------------------------

/// `n` copies of `c`.
pub open spec fn repeat(c: char, n: nat) -> Seq<char> {
    Seq::new(n, |i: int| c)
}

fn push_repeat(v: &mut Vec<char>, c: char, n: usize)
    ensures
        final(v)@ == old(v)@ + repeat(c, n as nat),
{
    let ghost v0 = v@;
    let mut i: usize = 0;
    while i < n
        invariant
            i <= n,
            v@ == v0 + repeat(c, i as nat),
        decreases n - i,
    {
        v.push(c);
        i += 1;
        assert(v@ =~= v0 + repeat(c, i as nat));
    }
}

fn count_char_exec(s: &[char], c: char) -> (n: usize)
    ensures
        n == count_char(s@, c),
{
    let mut n: usize = 0;
    let mut i: usize = 0;
    while i < s.len()
        invariant
            i <= s.len(),
            n == count_char(s@.take(i as int), c),
            n <= i,
        decreases s.len() - i,
    {
        assert(s@.take(i + 1).drop_last() =~= s@.take(i as int));
        if s[i] == c {
            n += 1;
        }
        i += 1;
    }
    assert(s@.take(s@.len() as int) =~= s@);
    n
}

/// The trimmed text, with a final `)` dropped when the text has no `(`.
pub open spec fn spec_remove_unmatched_closing(s: Seq<char>) -> Seq<char> {
    let t = trim(s);
    if t.len() > 0 && t.last() == ')' && !t.contains('(') {
        t.drop_last()
    } else {
        t
    }
}

/// Trim the text and drop a final `)` that has no `(` before it.
pub fn remove_unmatched_closing_parenthesis(input: &mut String)
    ensures
        final(input)@ == spec_remove_unmatched_closing(old(input)@),
{
    let t = trim_chars(&to_chars(input.as_str()));
    let n = t.len();
    if n > 0 && t[n - 1] == ')' && count_char_exec(&t, '(') == 0 {
        proof {
            lemma_count_zero(t@, '(');
        }
        let mut u = t;
        u.pop();
        *input = from_chars(&u);
    } else {
        proof {
            if n > 0 && t@.last() == ')' {
                lemma_count_zero(t@, '(');
            }
        }
        *input = from_chars(&t);
    }
}

proof fn lemma_count_zero(s: Seq<char>, c: char)
    ensures
        count_char(s, c) == 0 <==> !s.contains(c),
    decreases s.len(),
{
    if s.len() > 0 {
        lemma_count_zero(s.drop_last(), c);
        if s.drop_last().contains(c) {
            let k = choose|k: int| 0 <= k < s.drop_last().len() && s.drop_last()[k] == c;
            assert(s[k] == c);
        }
        if s.contains(c) && s.last() != c {
            let k = choose|k: int| 0 <= k < s.len() && s[k] == c;
            assert(s.drop_last()[k] == c);
        }
    }
}

/// The left-to-right scan of `add_missing_closing_parentheses`: the text so far and how
/// many parentheses are open. A `(` while one is open closes that one first with `") "`,
/// and stays open itself.
pub open spec fn closing_scan(s: Seq<char>) -> (Seq<char>, nat)
    decreases s.len(),
{
    if s.len() == 0 {
        (Seq::empty(), 0)
    } else {
        let (r, open) = closing_scan(s.drop_last());
        let c = s.last();
        if c == '(' {
            if open > 0 {
                (r + seq![')', ' ', '('], open)
            } else {
                (r.push('('), open + 1)
            }
        } else if c == ')' {
            (r.push(')'), if open > 0 { (open - 1) as nat } else { 0 })
        } else {
            (r.push(c), open)
        }
    }
}

/// The text with closing parentheses added: after the scan, one `)` per open parenthesis.
pub open spec fn spec_add_missing_closing(s: Seq<char>) -> Seq<char> {
    closing_scan(s).0 + repeat(')', closing_scan(s).1)
}

proof fn lemma_closing_scan_bound(s: Seq<char>)
    ensures
        closing_scan(s).1 <= s.len(),
        closing_scan(s).0.len() <= 3 * s.len(),
    decreases s.len(),
{
    if s.len() > 0 {
        lemma_closing_scan_bound(s.drop_last());
    }
}

/// Close parentheses that were left open.
pub fn add_missing_closing_parentheses(text: &mut String)
    ensures
        final(text)@ == spec_add_missing_closing(old(text)@),
{
    let s = to_chars(text.as_str());
    let mut open: usize = 0;
    let mut result: Vec<char> = Vec::new();
    let mut i: usize = 0;
    while i < s.len()
        invariant
            i <= s.len(),
            (result@, open as nat) == closing_scan(s@.take(i as int)),
        decreases s.len() - i,
    {
        assert(s@.take(i + 1).drop_last() =~= s@.take(i as int));
        proof {
            lemma_closing_scan_bound(s@.take(i as int));
        }
        let c = s[i];
        if c == '(' {
            if open > 0 {
                result.push(')');
                result.push(' ');
            } else {
                open += 1;
            }
        } else if c == ')' {
            if open > 0 {
                open -= 1;
            }
        }
        result.push(c);
        i += 1;
        assert(result@ =~= closing_scan(s@.take(i as int)).0);
    }
    assert(s@.take(s@.len() as int) =~= s@);
    push_repeat(&mut result, ')', open);
    *text = from_chars(&result);
}

/// The right-to-left scan of `add_missing_opening_parentheses`, giving the text in reading
/// order and how many parentheses are still to open. A `)` while one is pending opens that
/// one with `"( "` after it, and is pending itself.
pub open spec fn opening_scan(s: Seq<char>) -> (Seq<char>, nat)
    decreases s.len(),
{
    if s.len() == 0 {
        (Seq::empty(), 0)
    } else {
        let (r, open) = opening_scan(s.drop_first());
        let c = s[0];
        if c == ')' {
            if open > 0 {
                (seq![')', '(', ' '] + r, open)
            } else {
                (seq![')'] + r, open + 1)
            }
        } else if c == '(' {
            (seq!['('] + r, if open > 0 { (open - 1) as nat } else { 0 })
        } else {
            (seq![c] + r, open)
        }
    }
}

/// The text with opening parentheses added in front, one per unmatched `)`.
pub open spec fn spec_add_missing_opening(s: Seq<char>) -> Seq<char> {
    repeat('(', opening_scan(s).1) + opening_scan(s).0
}

proof fn lemma_opening_scan_bound(s: Seq<char>)
    ensures
        opening_scan(s).1 <= s.len(),
    decreases s.len(),
{
    if s.len() > 0 {
        lemma_opening_scan_bound(s.drop_first());
    }
}

/// Open parentheses that were closed without being opened.
pub fn add_missing_opening_parentheses(text: &mut String)
    ensures
        final(text)@ == spec_add_missing_opening(old(text)@),
{
    let s = to_chars(text.as_str());
    let mut open: usize = 0;
    let mut result: Vec<char> = Vec::new();
    let mut i: usize = s.len();
    assert(s@.skip(s@.len() as int) =~= Seq::<char>::empty());
    while i > 0
        invariant
            i <= s.len(),
            (result@, open as nat) == opening_scan(s@.skip(i as int)),
        decreases i,
    {
        assert(s@.skip(i - 1).drop_first() =~= s@.skip(i as int));
        proof {
            lemma_opening_scan_bound(s@.skip(i as int));
        }
        let c = s[i - 1];
        let mut piece: Vec<char> = Vec::new();
        piece.push(c);
        if c == ')' {
            if open > 0 {
                piece.push('(');
                piece.push(' ');
            } else {
                open += 1;
            }
        } else if c == '(' {
            if open > 0 {
                open -= 1;
            }
        }
        result = concat(&piece, &result);
        i -= 1;
        assert(result@ =~= opening_scan(s@.skip(i as int)).0);
    }
    assert(s@.skip(0) =~= s@);
    let mut front: Vec<char> = Vec::new();
    push_repeat(&mut front, '(', open);
    assert(front@ =~= repeat('(', open as nat));
    *text = from_chars(&concat(&front, &result));
}

/// The text with as many `(` as `)`: missing `)` appended at the end, missing `(` put in
/// front.
pub open spec fn equalize_parens(s: Seq<char>) -> Seq<char> {
    let o = count_char(s, '(');
    let c = count_char(s, ')');
    if o > c {
        s + repeat(')', (o - c) as nat)
    } else if o < c {
        repeat('(', (c - o) as nat) + s
    } else {
        s
    }
}

/// When `(` and `)` occur a different number of times, the missing ones are added: by the
/// scan in the direction of the surplus, then, for parentheses that no scan could pair, at
/// the end or the front.
pub open spec fn spec_balance_parenthesis(s: Seq<char>) -> Seq<char> {
    if count_char(s, '(') > count_char(s, ')') {
        equalize_parens(spec_add_missing_closing(s))
    } else if count_char(s, '(') < count_char(s, ')') {
        equalize_parens(spec_add_missing_opening(s))
    } else {
        s
    }
}

/// The text with the parentheses and spaces left out.
pub open spec fn without_parens(s: Seq<char>) -> Seq<char>
    decreases s.len(),
{
    if s.len() == 0 {
        s
    } else {
        without_parens(s.drop_last()) + (if s.last() == '(' || s.last() == ')' || s.last() == ' ' {
            Seq::empty()
        } else {
            seq![s.last()]
        })
    }
}

proof fn lemma_count_concat(a: Seq<char>, b: Seq<char>, c: char)
    ensures
        count_char(a + b, c) == count_char(a, c) + count_char(b, c),
    decreases b.len(),
{
    if b.len() == 0 {
        assert(a + b =~= a);
    } else {
        lemma_count_concat(a, b.drop_last(), c);
        assert((a + b).drop_last() =~= a + b.drop_last());
    }
}

proof fn lemma_without_concat(a: Seq<char>, b: Seq<char>)
    ensures
        without_parens(a + b) == without_parens(a) + without_parens(b),
    decreases b.len(),
{
    if b.len() == 0 {
        assert(a + b =~= a);
        assert(without_parens(a) + without_parens(b) =~= without_parens(a));
    } else {
        lemma_without_concat(a, b.drop_last());
        assert((a + b).drop_last() =~= a + b.drop_last());
    }
}

proof fn lemma_repeat_counts(x: char, n: nat)
    ensures
        count_char(repeat(x, n), x) == n,
        x != '(' ==> count_char(repeat(x, n), '(') == 0,
        x != ')' ==> count_char(repeat(x, n), ')') == 0,
        (x == '(' || x == ')') ==> without_parens(repeat(x, n)) == Seq::<char>::empty(),
    decreases n,
{
    if n > 0 {
        lemma_repeat_counts(x, (n - 1) as nat);
        assert(repeat(x, n).drop_last() =~= repeat(x, (n - 1) as nat));
    }
}

proof fn lemma_without_all_parens(s: Seq<char>)
    requires
        forall|i: int| 0 <= i < s.len() ==> s[i] == '(' || s[i] == ')' || s[i] == ' ',
    ensures
        without_parens(s) == Seq::<char>::empty(),
    decreases s.len(),
{
    if s.len() > 0 {
        lemma_without_all_parens(s.drop_last());
        assert(without_parens(s.drop_last()) + Seq::<char>::empty() =~= Seq::<char>::empty());
    }
}

proof fn lemma_closing_scan_keeps(s: Seq<char>)
    ensures
        without_parens(closing_scan(s).0) == without_parens(s),
    decreases s.len(),
{
    if s.len() > 0 {
        lemma_closing_scan_keeps(s.drop_last());
        let r = closing_scan(s.drop_last()).0;
        let c = s.last();
        if c == '(' && closing_scan(s.drop_last()).1 > 0 {
            lemma_without_concat(r, seq![')', ' ', '(']);
            lemma_without_all_parens(seq![')', ' ', '(']);
            assert(without_parens(r) + Seq::<char>::empty() =~= without_parens(r));
        } else {
            assert(r.push(c).drop_last() =~= r);
        }
    }
}

proof fn lemma_opening_scan_keeps(s: Seq<char>)
    ensures
        without_parens(opening_scan(s).0) == without_parens(s),
    decreases s.len(),
{
    if s.len() > 0 {
        lemma_opening_scan_keeps(s.drop_first());
        let r = opening_scan(s.drop_first()).0;
        let c = s[0];
        assert(s =~= seq![c] + s.drop_first());
        lemma_without_concat(seq![c], s.drop_first());
        assert(seq![c].drop_last() =~= Seq::<char>::empty());
        if c == ')' && opening_scan(s.drop_first()).1 > 0 {
            lemma_without_concat(seq![')', '(', ' '], r);
            lemma_without_all_parens(seq![')', '(', ' ']);
            lemma_without_all_parens(seq![')']);
            assert(Seq::<char>::empty() + without_parens(r) =~= without_parens(r));
        } else {
            lemma_without_concat(seq![c], r);
        }
    }
}

/// Equalizing gives as many `(` as `)` and adds nothing but parentheses.
proof fn lemma_equalize(s: Seq<char>)
    ensures
        count_char(equalize_parens(s), '(') == count_char(equalize_parens(s), ')'),
        without_parens(equalize_parens(s)) == without_parens(s),
{
    let o = count_char(s, '(');
    let c = count_char(s, ')');
    if o > c {
        lemma_count_concat(s, repeat(')', (o - c) as nat), '(');
        lemma_count_concat(s, repeat(')', (o - c) as nat), ')');
        lemma_repeat_counts(')', (o - c) as nat);
        lemma_without_concat(s, repeat(')', (o - c) as nat));
        assert(without_parens(s) + Seq::<char>::empty() =~= without_parens(s));
    } else if o < c {
        lemma_count_concat(repeat('(', (c - o) as nat), s, '(');
        lemma_count_concat(repeat('(', (c - o) as nat), s, ')');
        lemma_repeat_counts('(', (c - o) as nat);
        lemma_without_concat(repeat('(', (c - o) as nat), s);
        assert(Seq::<char>::empty() + without_parens(s) =~= without_parens(s));
    }
}

/// Balancing leaves as many `(` as `)`, and only adds parentheses and spaces: with those left
/// out, the text is what it was.
pub proof fn law_balanced_parentheses(s: Seq<char>)
    ensures
        count_char(spec_balance_parenthesis(s), '(') == count_char(spec_balance_parenthesis(s), ')'),
        without_parens(spec_balance_parenthesis(s)) == without_parens(s),
{
    if count_char(s, '(') > count_char(s, ')') {
        let a = spec_add_missing_closing(s);
        lemma_equalize(a);
        lemma_closing_scan_keeps(s);
        lemma_without_concat(closing_scan(s).0, repeat(')', closing_scan(s).1));
        lemma_repeat_counts(')', closing_scan(s).1);
        assert(without_parens(closing_scan(s).0) + Seq::<char>::empty() =~= without_parens(s));
    } else if count_char(s, '(') < count_char(s, ')') {
        let a = spec_add_missing_opening(s);
        lemma_equalize(a);
        lemma_opening_scan_keeps(s);
        lemma_without_concat(repeat('(', opening_scan(s).1), opening_scan(s).0);
        lemma_repeat_counts('(', opening_scan(s).1);
        assert(Seq::<char>::empty() + without_parens(opening_scan(s).0) =~= without_parens(s));
    }
}

/// Compare the counts of `(` and `)` and add the missing ones, so that the counts match.
pub fn balance_parenthesis(title: &mut String)
    ensures
        final(title)@ == spec_balance_parenthesis(old(title)@),
        count_char(final(title)@, '(') == count_char(final(title)@, ')'),
        without_parens(final(title)@) == without_parens(old(title)@),
{
    proof {
        law_balanced_parentheses(old(title)@);
    }
    let s = to_chars(title.as_str());
    let open_count = count_char_exec(&s, '(');
    let close_count = count_char_exec(&s, ')');
    if open_count == close_count {
        return;
    }
    if open_count > close_count {
        add_missing_closing_parentheses(title);
    } else {
        add_missing_opening_parentheses(title);
    }
    let t = to_chars(title.as_str());
    let o = count_char_exec(&t, '(');
    let c = count_char_exec(&t, ')');
    if o > c {
        let mut v = t;
        push_repeat(&mut v, ')', o - c);
        *title = from_chars(&v);
    } else if o < c {
        let mut v: Vec<char> = Vec::new();
        push_repeat(&mut v, '(', c - o);
        assert(v@ =~= repeat('(', (c - o) as nat));
        *title = from_chars(&concat(&v, &t));
    }
}

/// `" - "` becomes `" ("`, and the parenthesis closes before the next `" ("` or at the end.
pub open spec fn spec_use_parenthesis_for_mix(s: Seq<char>) -> Seq<char> {
    match find(s, " - "@) {
        None => s,
        Some(i) => {
            let t = s.take(i) + " ("@ + s.skip(i + 3);
            match find_from(t, " ("@, i + 2) {
                Some(j) => t.take(j) + seq![')'] + t.skip(j),
                None => t.push(')'),
            }
        },
    }
}

/// Put the part after the first `" - "` in parentheses: `"Song - Club Edit"` becomes
/// `"Song (Club Edit)"`.
pub fn use_parenthesis_for_mix(title: &mut String)
    ensures
        final(title)@ == spec_use_parenthesis_for_mix(old(title)@),
{
    let s = to_chars(title.as_str());
    let dash = to_chars(" - ");
    let open = to_chars(" (");
    proof {
        reveal_strlit(" - ");
        reveal_strlit(" (");
    }
    match find_seq(&s, &dash) {
        None => {},
        Some(i) => {
            proof {
                lemma_find_from_some(s@, dash@, 0);
            }
            let head = slice_copy(&s, 0, i);
            let tail = slice_copy(&s, i + 3, s.len());
            let t = concat(&concat(&head, &open), &tail);
            assert(t@ =~= s@.take(i as int) + " ("@ + s@.skip(i + 3));
            match find_seq_from(&t, &open, i + 2) {
                Some(j) => {
                    proof {
                        lemma_find_from_some(t@, open@, i + 2);
                    }
                    let mut r = slice_copy(&t, 0, j);
                    r.push(')');
                    let rest = slice_copy(&t, j, t.len());
                    extend(&mut r, &rest);
                    assert(r@ =~= t@.take(j as int) + seq![')'] + t@.skip(j as int));
                    *title = from_chars(&r);
                },
                None => {
                    let mut r = t;
                    r.push(')');
                    *title = from_chars(&r);
                },
            }
        },
    }
}

/// The left-to-right scan of `fix_nested_parentheses`: the text so far and the nesting
/// depth. A `(` inside another closes the outer one first; a `)` is kept only where it
/// closes the outermost parenthesis.
pub open spec fn nested_scan(s: Seq<char>) -> (Seq<char>, nat)
    decreases s.len(),
{
    if s.len() == 0 {
        (Seq::empty(), 0)
    } else {
        let (r, d) = nested_scan(s.drop_last());
        let c = s.last();
        if c == '(' {
            ((if d > 0 { r + seq![')', ' '] } else { r }).push('('), d + 1)
        } else if c == ')' {
            if d > 0 {
                (if d == 1 { r.push(')') } else { r }, (d - 1) as nat)
            } else {
                (r, 0)
            }
        } else {
            (r.push(c), d)
        }
    }
}

pub open spec fn spec_fix_nested_parentheses(s: Seq<char>) -> Seq<char> {
    let scanned = nested_scan(s).0 + repeat(')', nested_scan(s).1);
    replace(
        replace(replace(replace(scanned, " )"@, ")"@), "( "@, "("@), " ()"@, ""@),
        "() "@,
        ""@,
    )
}

proof fn lemma_nested_scan_bound(s: Seq<char>)
    ensures
        nested_scan(s).1 <= s.len(),
    decreases s.len(),
{
    if s.len() > 0 {
        lemma_nested_scan_bound(s.drop_last());
    }
}

pub(crate) fn replace_str(s: &[char], pat: &str, rep: &str) -> (r: Vec<char>)
    ensures
        r@ == replace(s@, pat@, rep@),
{
    replace_all(s, &to_chars(pat), &to_chars(rep))
}

/// Flatten nested parentheses: `"Hello ((World))"` becomes `"Hello (World)"`.
pub fn fix_nested_parentheses(text: &mut String)
    ensures
        final(text)@ == spec_fix_nested_parentheses(old(text)@),
{
    let s = to_chars(text.as_str());
    let mut depth: usize = 0;
    let mut result: Vec<char> = Vec::new();
    let mut i: usize = 0;
    while i < s.len()
        invariant
            i <= s.len(),
            (result@, depth as nat) == nested_scan(s@.take(i as int)),
        decreases s.len() - i,
    {
        assert(s@.take(i + 1).drop_last() =~= s@.take(i as int));
        proof {
            lemma_nested_scan_bound(s@.take(i as int));
        }
        let c = s[i];
        if c == '(' {
            if depth > 0 {
                result.push(')');
                result.push(' ');
            }
            result.push(c);
            depth += 1;
        } else if c == ')' {
            if depth > 0 {
                depth -= 1;
                if depth == 0 {
                    result.push(c);
                }
            }
        } else {
            result.push(c);
        }
        i += 1;
        assert(result@ =~= nested_scan(s@.take(i as int)).0);
    }
    assert(s@.take(s@.len() as int) =~= s@);
    push_repeat(&mut result, ')', depth);
    let r1 = replace_str(&result, " )", ")");
    let r2 = replace_str(&r1, "( ", "(");
    let r3 = replace_str(&r2, " ()", "");
    let r4 = replace_str(&r3, "() ", "");
    *text = from_chars(&r4);
}

/// A parenthesized `(feat. ...)` loses its parentheses.
pub open spec fn spec_extract_feat_from_parentheses(s: Seq<char>) -> Seq<char> {
    match find(s, "(feat. "@) {
        None => s,
        Some(st) => match find_from(s, ")"@, st) {
            None => s,
            Some(en) => replacen(s, s.subrange(st, en + 1), s.subrange(st + 1, en), 1),
        },
    }
}

/// Remove the parentheses around a `(feat. ...)` part of an artist name.
pub fn extract_feat_from_parentheses(artist: &mut String)
    ensures
        final(artist)@ == spec_extract_feat_from_parentheses(old(artist)@),
{
    let s = to_chars(artist.as_str());
    let n = s.len();
    let start_pattern = to_chars("(feat. ");
    let close = to_chars(")");
    proof {
        reveal_strlit("(feat. ");
        reveal_strlit(")");
    }
    if let Some(st) = find_seq(&s, &start_pattern) {
        proof {
            lemma_find_from_some(s@, start_pattern@, 0);
        }
        if let Some(en) = find_seq_from(&s, &close, st) {
            proof {
                lemma_find_from_some(s@, close@, st as int);
                assert(s@.subrange(st as int, st + 7)[0] == s@[st as int]);
                assert(s@[st as int] == '(');
                assert(s@.subrange(en as int, en + 1)[0] == ')');
            }
            assert(en < n);
            let part = slice_copy(&s, st, en + 1);
            let inner = slice_copy(&s, st + 1, en);
            *artist = from_chars(&replacen_chars(&s, &part, &inner, 1));
        }
    }
}

/// Any text in parentheses with a `" - "` in it.
pub const RE_DASH_IN_PARENTHESES: &'static str = "\\((.*?) - (.*?)\\)";

/// `"(a - b)"` becomes `"(a) (b)"`.
pub open spec fn spec_replace_dash_in_parentheses(s: Seq<char>) -> Seq<char> {
    regex_replaced(RE_DASH_IN_PARENTHESES@, s, "($1) ($2)"@)
}

/// Split a parenthesized `"a - b"` into `"(a) (b)"`.
pub fn replace_dash_in_parentheses(text: &mut String)
    ensures
        final(text)@ == spec_replace_dash_in_parentheses(old(text)@),
{
    *text = regex_replace_all(RE_DASH_IN_PARENTHESES, text.as_str(), "($1) ($2)");
}

/// Text after a closing parenthesis up to the next opening one.
pub const RE_TEXT_AFTER_PARENTHESES: &'static str = "\\)\\s(.*?)\\s\\(";

/// Wrap text between parenthesized groups, and text after the last one, in parentheses.
pub open spec fn spec_wrap_rest(rest: Seq<char>) -> Seq<char> {
    let r = regex_replaced(RE_TEXT_AFTER_PARENTHESES@, rest, ") ($1) ("@);
    match rfind_char(r, ')') {
        Some(k) => if k < r.len() - 1 {
            (r.take(k + 2) + seq!['('] + r.skip(k + 2)).push(')')
        } else {
            r
        },
        None => r,
    }
}

/// A text that starts with a parenthesized group keeps that group as it is.
pub open spec fn spec_wrap_text_after_parentheses(s: Seq<char>) -> Seq<char> {
    if s.len() > 0 && s[0] == '(' {
        match find(s, ") "@) {
            None => s,
            Some(i) => s.take(i + 2) + spec_wrap_rest(s.skip(i + 2)),
        }
    } else {
        spec_wrap_rest(s)
    }
}

fn wrap_rest(rest: &str) -> (r: Vec<char>)
    ensures
        r@ == spec_wrap_rest(rest@),
{
    let r = to_chars(regex_replace_all(RE_TEXT_AFTER_PARENTHESES, rest, ") ($1) (").as_str());
    proof {
        crate::paths::lemma_rfind_char(r@, ')');
    }
    match rfind_char_exec(&r, ')') {
        Some(k) => {
            if k < r.len() - 1 {
                let mut out = slice_copy(&r, 0, k + 2);
                out.push('(');
                let rest2 = slice_copy(&r, k + 2, r.len());
                extend(&mut out, &rest2);
                out.push(')');
                assert(out@ =~= (r@.take(k + 2) + seq!['('] + r@.skip(k + 2)).push(')'));
                out
            } else {
                r
            }
        },
        None => r,
    }
}

/// Put text that follows a parenthesized group in parentheses of its own:
/// `"Hello (World) Test"` becomes `"Hello (World) (Test)"`.
pub fn wrap_text_after_parentheses(text: &mut String)
    ensures
        final(text)@ == spec_wrap_text_after_parentheses(old(text)@),
{
    let s = to_chars(text.as_str());
    if s.len() > 0 && s[0] == '(' {
        let close = to_chars(") ");
        proof {
            reveal_strlit(") ");
        }
        match find_seq(&s, &close) {
            None => {},
            Some(i) => {
                proof {
                    lemma_find_from_some(s@, close@, 0);
                }
                let head = slice_copy(&s, 0, i + 2);
                let rest = from_chars(&slice_copy(&s, i + 2, s.len()));
                let wrapped = wrap_rest(rest.as_str());
                assert(s@.subrange(i + 2, s@.len() as int) =~= s@.skip(i + 2));
                *text = from_chars(&concat(&head, &wrapped));
            },
        }
    } else {
        let wrapped = wrap_rest(text.as_str());
        *text = from_chars(&wrapped);
    }
}

// ---------------------------------------------------------------------------
// BPM and key at the end of a title
// ---------------------------------------------------------------------------

/// `c` equals the lower-case ASCII character `l`, or its upper-case form.
pub open spec fn ascii_ci_eq(c: char, l: char) -> bool {
    c == l || ('a' <= l <= 'z' && c as u32 + 32 == l as u32)
}

/// `s` ends with the lower-case ASCII text `suf`, in any case.
pub open spec fn ends_with_ci(s: Seq<char>, suf: Seq<char>) -> bool {
    suf.len() <= s.len() && forall|i: int|
        0 <= i < suf.len() ==> ascii_ci_eq(#[trigger] s[s.len() - suf.len() + i], suf[i])
}

/// `s` ends, in any case, with one of the texts.
pub open spec fn ends_with_any_ci(s: Seq<char>, sufs: Seq<Seq<char>>) -> bool
    decreases sufs.len(),
{
    sufs.len() > 0 && (ends_with_ci(s, sufs[0]) || ends_with_any_ci(s, sufs.drop_first()))
}

fn ends_with_ci_exec(s: &[char], suf: &str) -> (b: bool)
    ensures
        b == ends_with_ci(s@, suf@),
{
    let t = to_chars(suf);
    if t.len() > s.len() {
        return false;
    }
    let n = s.len();
    let off = n - t.len();
    let mut i: usize = 0;
    while i < t.len()
        invariant
            i <= t@.len(),
            t@.len() <= s@.len(),
            n == s@.len(),
            t@ == suf@,
            off == s@.len() - t@.len(),
            forall|k: int| 0 <= k < i ==> ascii_ci_eq(#[trigger] s@[s@.len() - t@.len() + k], t@[k]),
        decreases t.len() - i,
    {
        let c = s[off + i];
        let l = t[i];
        if !(c == l || ('a' <= l && l <= 'z' && (c as u32) == (l as u32) - 32)) {
            assert(!ascii_ci_eq(s@[s@.len() - t@.len() + i], t@[i as int]));
            return false;
        }
        i += 1;
    }
    true
}

/// Titles that end like these keep their final parenthesis: `(4U)`, `(33rpm)`, `(... Mix)`.
pub open spec fn kept_suffixes() -> Seq<Seq<char>> {
    seq![" (4u)"@, "33rpm)"@, "45rpm)"@, " mix)"@, " dub)"@, " eq)"@, " rip)"@]
}

/// BPM from 50 to 180, with an optional decimal, in parentheses at the end.
pub const RE_BPM_IN_PARENTHESES: &'static str =
    " \\(((?:5[0-9]|6[0-9]|7[0-9]|8[0-9]|9[0-9]|1[0-7][0-9]|180)(?:\\.\\d)?)\\)$";

/// BPM from 50 to 179 directly followed by `bpm`.
pub const RE_BPM_WITH_TEXT: &'static str =
    "\\b(?:5[0-9]|6[0-9]|7[0-9]|8[0-9]|9[0-9]|1[0-6][0-9]|17[0-9])bpm\\b";

/// BPM from 50 to 179 and a musical key, in parentheses at the end.
pub const RE_BPM_WITH_KEY: &'static str =
    "\\s\\(((?:5[0-9]|6[0-9]|7[0-9]|8[0-9]|9[0-9]|1[0-6][0-9]|17[0-9])(?:\\s(1[0-2]|[1-9]))?[a-zA-Z])\\)$";

/// BPM from 50 to 179 and two or three letters, in parentheses at the end.
pub const RE_BPM_WITH_TEXT_PARENTHESES: &'static str =
    "\\s\\((?:5[0-9]|6[0-9]|7[0-9]|8[0-9]|9[0-9]|1[0-6][0-9]|17[0-9])\\s?[a-zA-Z]{2,3}\\)$";

/// BPM from 50 to 179 and two or three letters at the end.
pub const RE_BPM_WITH_EXTRA_TEXT: &'static str =
    "\\b(?:5[0-9]|6[0-9]|7[0-9]|8[0-9]|9[0-9]|1[0-6][0-9]|17[0-9])\\s?[a-zA-Z]{2,3}$";

/// The BPM patterns, in the order they are tried.
pub open spec fn bpm_patterns() -> Seq<Seq<char>> {
    seq![
        RE_BPM_IN_PARENTHESES@,
        RE_BPM_WITH_TEXT@,
        RE_BPM_WITH_KEY@,
        RE_BPM_WITH_TEXT_PARENTHESES@,
        RE_BPM_WITH_EXTRA_TEXT@,
    ]
}

/// The first pattern that matches removes its matches; the others are not tried.
pub open spec fn remove_first_matching(s: Seq<char>, pats: Seq<Seq<char>>) -> Seq<char>
    decreases pats.len(),
{
    if pats.len() == 0 {
        s
    } else if regex_matches(pats[0], s) {
        regex_replaced(pats[0], s, ""@)
    } else {
        remove_first_matching(s, pats.drop_first())
    }
}

pub open spec fn spec_remove_bpm(s: Seq<char>) -> Seq<char> {
    if ends_with_any_ci(s, kept_suffixes()) {
        s
    } else {
        let t = trim(remove_first_matching(s, bpm_patterns()));
        if t.len() > 0 {
            t
        } else {
            s
        }
    }
}

/// Whether the text ends, in any case, with one of [`kept_suffixes`].
pub fn suffix_kept(text: &str) -> (b: bool)
    ensures
        b == ends_with_any_ci(text@, kept_suffixes()),
{
    let s = to_chars(text);
    let suffixes: Vec<&str> = vec![" (4u)", "33rpm)", "45rpm)", " mix)", " dub)", " eq)", " rip)"];
    assert(suffixes@.map_values(|x: &str| x@) =~= kept_suffixes());
    assert(kept_suffixes().skip(0) =~= kept_suffixes());
    let mut k: usize = 0;
    while k < suffixes.len()
        invariant
            k <= suffixes@.len(),
            s@ == text@,
            suffixes@.map_values(|x: &str| x@) == kept_suffixes(),
            ends_with_any_ci(s@, kept_suffixes()) == ends_with_any_ci(s@, kept_suffixes().skip(k as int)),
        decreases suffixes.len() - k,
    {
        assert(kept_suffixes().skip(k as int)[0] == suffixes@[k as int]@);
        assert(kept_suffixes().skip(k as int).drop_first() =~= kept_suffixes().skip(k + 1));
        if ends_with_ci_exec(&s, suffixes[k]) {
            return true;
        }
        k += 1;
    }
    assert(kept_suffixes().skip(k as int) =~= Seq::<Seq<char>>::empty());
    false
}

/// Whether the text ends in a parenthesized BPM with a key, such as `" (128 8A)"`.
pub fn matches_bpm_with_key(text: &str) -> (b: bool)
    ensures
        b == regex_matches(RE_BPM_WITH_KEY@, text@),
{
    regex_is_match(RE_BPM_WITH_KEY, text)
}

/// Remove BPM and key information from the end of a title; a result that would be empty
/// leaves the title as it was.
pub fn remove_bpm_in_parentheses_from_end(text: &mut String)
    ensures
        final(text)@ == spec_remove_bpm(old(text)@),
{
    if suffix_kept(text.as_str()) {
        return;
    }
    let patterns: Vec<&str> = vec![
        RE_BPM_IN_PARENTHESES,
        RE_BPM_WITH_TEXT,
        RE_BPM_WITH_KEY,
        RE_BPM_WITH_TEXT_PARENTHESES,
        RE_BPM_WITH_EXTRA_TEXT,
    ];
    assert(patterns@.map_values(|x: &str| x@) =~= bpm_patterns());
    let mut result = text.clone();
    let mut done = false;
    let mut j: usize = 0;
    assert(bpm_patterns().skip(0) =~= bpm_patterns());
    while j < patterns.len() && !done
        invariant
            j <= patterns@.len(),
            patterns@.map_values(|x: &str| x@) == bpm_patterns(),
            !done ==> result@ == old(text)@,
            !done ==> remove_first_matching(old(text)@, bpm_patterns()) == remove_first_matching(
                old(text)@,
                bpm_patterns().skip(j as int),
            ),
            done ==> result@ == remove_first_matching(old(text)@, bpm_patterns()),
        decreases patterns.len() - j,
    {
        assert(bpm_patterns().skip(j as int)[0] == patterns@[j as int]@);
        assert(bpm_patterns().skip(j as int).drop_first() =~= bpm_patterns().skip(j + 1));
        if regex_is_match(patterns[j], result.as_str()) {
            result = regex_replace_all(patterns[j], result.as_str(), "");
            done = true;
        }
        j += 1;
    }
    if !done {
        assert(bpm_patterns().skip(j as int) =~= Seq::<Seq<char>>::empty());
    }
    let t = trim_chars(&to_chars(result.as_str()));
    if t.len() > 0 {
        *text = from_chars(&t);
    }
}

// ---------------------------------------------------------------------------
// Featured artists
// ---------------------------------------------------------------------------

/// `feat.` and what follows it up to a dash, a parenthesis or the end.
pub const RE_FEAT: &'static str = "\\bfeat\\. .*?( -|\\(|\\)|$)";

/// `and`, with an optional comma before it, between featured artists.
pub const RE_FEAT_AND: &'static str = "(?i),?\\s+and\\s+";

pub open spec fn is_feat_end_char(c: char) -> bool {
    c == '(' || c == ')' || c == '-'
}

/// `str::trim_end_matches(['(', ')', '-'])`.
pub open spec fn trim_end_feat(s: Seq<char>) -> Seq<char>
    decreases s.len(),
{
    if s.len() > 0 && is_feat_end_char(s.last()) {
        trim_end_feat(s.drop_last())
    } else {
        s
    }
}

pub open spec fn is_feat_separator(c: char) -> bool {
    c == '&' || c == ',' || c == '+'
}

/// `str::split` on `&`, `,` and `+`: the pieces between separators, empty ones included.
pub open spec fn split_feat(s: Seq<char>) -> Seq<Seq<char>>
    decreases s.len(),
{
    if s.len() == 0 {
        seq![Seq::empty()]
    } else {
        let p = split_feat(s.drop_last());
        if is_feat_separator(s.last()) {
            p.push(Seq::empty())
        } else {
            p.update(p.len() - 1, p.last().push(s.last()))
        }
    }
}

/// The delimiters between artist names.
pub open spec fn artist_delimiters() -> Seq<Seq<char>> {
    seq![", "@, " & "@, " and "@, " + "@]
}

/// Remove one featured artist, with a delimiter before or after it, from the artist text.
pub open spec fn strip_featured(artist: Seq<char>, name: Seq<char>, delims: Seq<Seq<char>>) -> Seq<
    char,
>
    decreases delims.len(),
{
    if delims.len() == 0 {
        artist
    } else {
        strip_featured(
            replace(replace(artist, delims[0] + name, ""@), name + delims[0], ""@),
            name,
            delims.drop_first(),
        )
    }
}

/// Remove each featured artist in turn.
pub open spec fn strip_all_featured(artist: Seq<char>, names: Seq<Seq<char>>) -> Seq<char>
    decreases names.len(),
{
    if names.len() == 0 {
        artist
    } else {
        strip_featured(strip_all_featured(artist, names.drop_last()), names.last(), artist_delimiters())
    }
}

/// The featured artists as they are written after `feat.`: without the `feat. ` prefix, every
/// `and` written as `&`.
pub open spec fn feat_names(feat: Seq<char>) -> Seq<char> {
    trim(regex_replaced(RE_FEAT_AND@, replacen(feat, "feat. "@, ""@, 1), " & "@))
}

/// Artist and title after moving a `feat.` part of the title to the artist.
pub open spec fn spec_move_feat(artist: Seq<char>, title: Seq<char>) -> (Seq<char>, Seq<char>) {
    match regex_first_match(RE_FEAT@, title) {
        None => (artist, title),
        Some(m) => {
            let feat = trim_end_feat(m);
            let names = feat_names(feat);
            let a = strip_all_featured(artist, split_feat(names).map_values(|p: Seq<char>| trim(p)));
            let formatted = " feat. "@ + names;
            (if contains(a, formatted) { a } else { a + formatted }, trim(replace(title, feat, ""@)))
        },
    }
}

proof fn lemma_split_feat_nonempty(s: Seq<char>)
    ensures
        split_feat(s).len() >= 1,
    decreases s.len(),
{
    if s.len() > 0 {
        lemma_split_feat_nonempty(s.drop_last());
    }
}

fn trim_end_feat_exec(s: &[char]) -> (r: Vec<char>)
    ensures
        r@ == trim_end_feat(s@),
{
    let mut j: usize = s.len();
    assert(s@.take(s@.len() as int) =~= s@);
    while j > 0 && (s[j - 1] == '(' || s[j - 1] == ')' || s[j - 1] == '-')
        invariant
            j <= s@.len(),
            trim_end_feat(s@.take(j as int)) == trim_end_feat(s@),
        decreases j,
    {
        assert(s@.take(j as int).drop_last() =~= s@.take(j - 1));
        j -= 1;
    }
    assert(s@.take(j as int) =~= s@.subrange(0, j as int));
    slice_copy(s, 0, j)
}

fn strip_featured_exec(artist: Vec<char>, name: &[char]) -> (r: Vec<char>)
    ensures
        r@ == strip_featured(artist@, name@, artist_delimiters()),
{
    let delims: Vec<&str> = vec![", ", " & ", " and ", " + "];
    let ghost d = artist_delimiters();
    assert(delims@.map_values(|x: &str| x@) =~= d);
    let mut cur = artist;
    let ghost a0 = cur@;
    let mut i: usize = 0;
    assert(d.skip(0) =~= d);
    while i < delims.len()
        invariant
            i <= delims@.len(),
            d == artist_delimiters(),
            delims@.map_values(|x: &str| x@) == d,
            strip_featured(cur@, name@, d.skip(i as int)) == strip_featured(a0, name@, d),
        decreases delims.len() - i,
    {
        let dl = to_chars(delims[i]);
        assert(d.skip(i as int)[0] == dl@);
        assert(d.skip(i as int).drop_first() =~= d.skip(i + 1));
        let before = concat(&dl, name);
        let after = concat(name, &dl);
        let empty: Vec<char> = Vec::new();
        let once = replace_all(&cur, &before, &empty);
        cur = replace_all(&once, &after, &empty);
        assert(empty@ =~= ""@) by {
            reveal_strlit("");
        }
        i += 1;
    }
    assert(d.skip(i as int) =~= Seq::<Seq<char>>::empty());
    cur
}

proof fn lemma_strip_all_step(artist: Seq<char>, names: Seq<Seq<char>>, x: Seq<char>)
    ensures
        strip_all_featured(artist, names.push(x)) == strip_featured(
            strip_all_featured(artist, names),
            x,
            artist_delimiters(),
        ),
{
    assert(names.push(x).drop_last() =~= names);
}

/// Remove every featured artist named in `names` (separated by `&`, `,` or `+`) from the artist.
fn strip_names(artist: Vec<char>, names: &[char]) -> (r: Vec<char>)
    ensures
        r@ == strip_all_featured(artist@, split_feat(names@).map_values(|p: Seq<char>| trim(p))),
{
    let ghost a0 = artist@;
    let mut cur = artist;
    let mut piece: Vec<char> = Vec::new();
    let mut i: usize = 0;
    assert(names@.take(0) =~= Seq::<char>::empty());
    assert(split_feat(Seq::<char>::empty()).drop_last().map_values(|p: Seq<char>| trim(p)) =~= Seq::<Seq<char>>::empty());
    while i < names.len()
        invariant
            i <= names@.len(),
            split_feat(names@.take(i as int)).len() >= 1,
            piece@ == split_feat(names@.take(i as int)).last(),
            cur@ == strip_all_featured(
                a0,
                split_feat(names@.take(i as int)).drop_last().map_values(|p: Seq<char>| trim(p)),
            ),
        decreases names.len() - i,
    {
        let ghost p = split_feat(names@.take(i as int));
        assert(names@.take(i + 1).drop_last() =~= names@.take(i as int));
        let c = names[i];
        if c == '&' || c == ',' || c == '+' {
            let t = trim_chars(&piece);
            proof {
                lemma_strip_all_step(a0, p.drop_last().map_values(|q: Seq<char>| trim(q)), t@);
                assert(p.push(Seq::empty()).drop_last().map_values(|q: Seq<char>| trim(q)) =~= p.drop_last().map_values(
                    |q: Seq<char>| trim(q),
                ).push(t@));
            }
            cur = strip_featured_exec(cur, &t);
            piece = Vec::new();
        } else {
            piece.push(c);
            assert(p.update(p.len() - 1, p.last().push(c)).drop_last() =~= p.drop_last());
        }
        i += 1;
        proof {
            lemma_split_feat_nonempty(names@.take(i as int));
        }
    }
    assert(names@.take(names@.len() as int) =~= names@);
    let ghost p = split_feat(names@);
    let t = trim_chars(&piece);
    proof {
        lemma_strip_all_step(a0, p.drop_last().map_values(|q: Seq<char>| trim(q)), t@);
        assert(p.map_values(|q: Seq<char>| trim(q)) =~= p.drop_last().map_values(|q: Seq<char>| trim(q)).push(
            t@,
        ));
    }
    strip_featured_exec(cur, &t)
}

/// Move a `feat.` part from the title to the artist: `"Song feat. X (Remix)"` by `"A"`
/// becomes `"Song (Remix)"` by `"A feat. X"`. Featured artists already named in the artist
/// text are removed from it first.
pub fn move_feat_from_title_to_artist(artist: &mut String, title: &mut String)
    ensures
        (final(artist)@, final(title)@) == spec_move_feat(old(artist)@, old(title)@),
{
    match regex_find(RE_FEAT, title.as_str()) {
        None => {},
        Some(m) => {
            let feat = trim_end_feat_exec(&to_chars(m.as_str()));
            let empty: Vec<char> = Vec::new();
            assert(empty@ =~= ""@) by {
                reveal_strlit("");
            }
            let new_title = trim_chars(&replace_all(&to_chars(title.as_str()), &feat, &empty));
            let prefix = to_chars("feat. ");
            let without = from_chars(&replacen_chars(&feat, &prefix, &empty, 1));
            let names = trim_chars(
                &to_chars(regex_replace_all(RE_FEAT_AND, without.as_str(), " & ").as_str()),
            );
            let stripped = strip_names(to_chars(artist.as_str()), &names);
            let formatted = concat(&to_chars(" feat. "), &names);
            if seq_contains(&stripped, &formatted) {
                *artist = from_chars(&stripped);
            } else {
                *artist = from_chars(&concat(&stripped, &formatted));
            }
            *title = from_chars(&new_title);
        },
    }
}

// ---------------------------------------------------------------------------
// Rule tables
// ---------------------------------------------------------------------------

/// Plain-text substitutions applied to both artist and title, before and after the other rules.
pub open spec fn common_substitutes() -> Seq<(Seq<char>, Seq<char>)> {
    seq![
        ("\0"@, "/"@),
        ("`"@, "'"@),
        ("´"@, "'"@),
        (")("@, ") ("@),
        ("()"@, " "@),
        (") - ("@, ""@),
        (" - ("@, " ("@),
        ("(- "@, "("@),
        ("( - "@, "("@),
        (" -)"@, " )"@),
        (" - ) "@, ")"@),
        (" )"@, ")"@),
        ("( "@, "("@),
        ("..."@, " "@),
        (".."@, " "@),
        (" feat. - "@, " feat. "@),
        (" feat.-"@, " feat. "@),
        ("o¨"@, "ö"@),
        ("e¨"@, "ë"@),
        (" ,"@, ","@),
        ("\u{FFFD}"@, " "@),
        ("–"@, "-"@),
        ("—"@, "-"@),
    ]
}

pub(crate) fn common_substitutes_table() -> (t: Vec<(&'static str, &'static str)>)
    ensures
        pairs_view(t@) == common_substitutes(),
{
    let t = vec![
        ("\0", "/"),
        ("`", "'"),
        ("´", "'"),
        (")(", ") ("),
        ("()", " "),
        (") - (", ""),
        (" - (", " ("),
        ("(- ", "("),
        ("( - ", "("),
        (" -)", " )"),
        (" - ) ", ")"),
        (" )", ")"),
        ("( ", "("),
        ("...", " "),
        ("..", " "),
        (" feat. - ", " feat. "),
        (" feat.-", " feat. "),
        ("o¨", "ö"),
        ("e¨", "ë"),
        (" ,", ","),
        ("\u{FFFD}", " "),
        ("–", "-"),
        ("—", "-"),
    ];
    assert(pairs_view(t@) =~= common_substitutes());
    t
}

/// Plain-text substitutions applied to titles.
pub open spec fn title_substitutes() -> Seq<(Seq<char>, Seq<char>)> {
    seq![
        ("(Original Mix/"@, "("@),
        ("12\""@, "12''"@),
        (" (12 Version) "@, " (12'' Version) "@),
        ("(Inst)"@, "(Instrumental)"@),
        (" W/Drums"@, " With Drums"@),
        ("), Pt. 1"@, ") (Pt. 1)"@),
        ("/Cyberkid "@, " - Cyberkid "@),
        ("-Dirty/Beat Junkie Sound "@, " - Dirty Beat Junkie Sound "@),
        ("-DirtyBeat Junkie Sound "@, " - Dirty Beat Junkie Sound "@),
        ("/Clean-Beat Junkie Sound "@, " - Clean Beat Junkie Sound "@),
        ("-Clean/Beat Junkie Sound "@, " - Clean Beat Junkie Sound "@),
        ("-CleanBeat Junkie Sound "@, " - Clean Beat Junkie Sound "@),
        ("(Clean-Beat Junkie Sound "@, "(Clean Beat Junkie Sound "@),
        ("(Dirty-Beat Junkie Sound "@, "(Dirty Beat Junkie Sound "@),
        (" Version/cyberkid "@, " Version - Cyberkid "@),
        ("/Beat Junkie "@, " - Beat Junkie "@),
        ("(Clean-"@, "(Clean "@),
        ("(Dirty-"@, "(Dirty "@),
    ]
}

fn title_substitutes_table() -> (t: Vec<(&'static str, &'static str)>)
    ensures
        pairs_view(t@) == title_substitutes(),
{
    let t = vec![
        ("(Original Mix/", "("),
        ("12\"", "12''"),
        (" (12 Version) ", " (12'' Version) "),
        ("(Inst)", "(Instrumental)"),
        (" W/Drums", " With Drums"),
        ("), Pt. 1", ") (Pt. 1)"),
        ("/Cyberkid ", " - Cyberkid "),
        ("-Dirty/Beat Junkie Sound ", " - Dirty Beat Junkie Sound "),
        ("-DirtyBeat Junkie Sound ", " - Dirty Beat Junkie Sound "),
        ("/Clean-Beat Junkie Sound ", " - Clean Beat Junkie Sound "),
        ("-Clean/Beat Junkie Sound ", " - Clean Beat Junkie Sound "),
        ("-CleanBeat Junkie Sound ", " - Clean Beat Junkie Sound "),
        ("(Clean-Beat Junkie Sound ", "(Clean Beat Junkie Sound "),
        ("(Dirty-Beat Junkie Sound ", "(Dirty Beat Junkie Sound "),
        (" Version/cyberkid ", " Version - Cyberkid "),
        ("/Beat Junkie ", " - Beat Junkie "),
        ("(Clean-", "(Clean "),
        ("(Dirty-", "(Dirty "),
    ];
    assert(pairs_view(t@) =~= title_substitutes());
    t
}

/// Regular-expression substitutions for brackets, punctuation and spacing.
pub open spec fn regex_substitutes() -> Seq<(Seq<char>, Seq<char>)> {
    seq![
        ("[\\[{]+"@, "("@),
        ("[]}]+"@, ")"@),
        ("!{2,}"@, "!"@),
        ("\\.{2,}"@, "."@),
        ("\\(\\s*?\\)"@, ""@),
        ("(\\S)\\("@, "$1 ("@),
        ("\\)([A-Za-z0-9])"@, ") $1"@),
        ("\\(\\s*\\){2,}"@, "("@),
        ("\\)\\s*\\){2,}"@, ")"@),
        ("\\s_(.*?)_\\s"@, " '$1' "@),
        ("\\s\\*+\\b"@, ""@),
        ("\\s+"@, " "@),
    ]
}

fn regex_substitutes_table() -> (t: Vec<(&'static str, &'static str)>)
    ensures
        pairs_view(t@) == regex_substitutes(),
{
    let t = vec![
        ("[\\[{]+", "("),
        ("[]}]+", ")"),
        ("!{2,}", "!"),
        ("\\.{2,}", "."),
        ("\\(\\s*?\\)", ""),
        ("(\\S)\\(", "$1 ("),
        ("\\)([A-Za-z0-9])", ") $1"),
        ("\\(\\s*\\){2,}", "("),
        ("\\)\\s*\\){2,}", ")"),
        ("\\s_(.*?)_\\s", " '$1' "),
        ("\\s\\*+\\b", ""),
        ("\\s+", " "),
    ];
    assert(pairs_view(t@) =~= regex_substitutes());
    t
}

/// Regular-expression substitutions for names, spellings and mix labels.
pub open spec fn regex_name_substitutes() -> Seq<(Seq<char>, Seq<char>)> {
    seq![
        ("(?i)\\b12\\s?inch\\b"@, "12''"@),
        ("(?i)\\b12\\s?in\\b"@, "12''"@),
        ("(?i)\\b7\\s?inch\\b"@, "7''"@),
        ("(?i)\\b7\\s?in\\b"@, "7''"@),
        ("(?i)\\b(?:feat\\.?|ft\\.?|featuring)\\b"@, "feat."@),
        ("(?i)\\(\\s*(?:feat\\.?|ft\\.?|featuring)\\b"@, "(feat."@),
        ("(?i)\\sW/"@, " feat. "@),
        ("(?i)\\(Rmx\\)"@, "(Remix)"@),
        ("(?i)\\bRmx\\b"@, "Remix"@),
        ("[®™]"@, ""@),
        ("(?i)\\bMissy Elliot\\b|\\bMissy Elliot$"@, "Missy Elliott"@),
        ("(?i)\\bGangstarr\\b|\\bGangstarr$"@, "Gang Starr"@),
        ("(?i)\\bSza\\b"@, "SZA"@),
        ("(?i)\\bYoure\\b"@, "You're"@),
        ("(?i)\\bIm\\b"@, "I'm"@),
        ("(?i)\\bYouve\\b"@, "You've"@),
        ("(?i)\\bCant\\b"@, "Can't"@),
        ("(?i)\\bWont\\b"@, "Won't"@),
        ("(?i)\\bDont\\b"@, "Don't"@),
        ("(?i)\\bDj\\b"@, "DJ"@),
        ("\\bfeat\\.([A-Za-z0-9])"@, "feat. $1"@),
        ("(?i)\\b(dirty!)\\b"@, "(Dirty)"@),
        ("(?i)\\(Original Mix\\)"@, ""@),
        ("(?i)\\bdjcity\\b"@, ""@),
        ("(?i)\\bintro - clean\\b"@, "Clean Intro"@),
        ("(?i)\\bintro - dirty\\b"@, "Dirty Intro"@),
        ("(?i)\\(clean - intro\\)"@, "(Clean Intro)"@),
        ("(?i)\\(dirty - intro\\)"@, "(Dirty Intro)"@),
        ("(?i)\\bIntro[:\\s/+\\-&]*outro\\b"@, "Intro"@),
        ("(?i)\\bAca In\\b"@, "Acapella Intro"@),
        ("(?i)\\bAca intro[:\\s/+\\-&]*aca outro\\b"@, "Acapella In-Out"@),
        ("(?i)\\bAcapella Intro[:\\s/+\\-&]*aca out\\b"@, "Acapella In-Out"@),
        ("(?i)\\bAca Out\\b"@, "Acapella Out"@),
        ("(?i)\\bAcap-In\\b"@, "Acapella Intro"@),
        ("(?i)\\bAcap - diy\\b"@, "Acapella DIY"@),
        ("(?i)\\bAcap in[:\\s/+\\-&]*out\\b"@, "Acapella In-Out"@),
        ("(?i)\\bAcap\\b"@, "Acapella"@),
        ("(?i)\\bAcapella[\\s/+\\-]*In[:\\s/+\\-&]*Out\\b"@, "Acapella In-Out"@),
        ("(?i)\\bAcapella[\\s/+\\-]*In\\b"@, "Acapella Intro"@),
        ("(?i)\\bAcapella Intro[:\\s/+\\-&]*Out\\b"@, "Acapella In-Out"@),
        ("(?i)\\bAcapella-Intro[:\\s/+\\-&]*Out\\b"@, "Acapella In-Out"@),
        ("(?i)\\bAcapella-Intro\\b"@, "Acapella Intro"@),
        ("(?i)\\bAcapella-out\\b"@, "Acapella Out"@),
    ]
}

fn regex_name_substitutes_table() -> (t: Vec<(&'static str, &'static str)>)
    ensures
        pairs_view(t@) == regex_name_substitutes(),
{
    let t = vec![
        ("(?i)\\b12\\s?inch\\b", "12''"),
        ("(?i)\\b12\\s?in\\b", "12''"),
        ("(?i)\\b7\\s?inch\\b", "7''"),
        ("(?i)\\b7\\s?in\\b", "7''"),
        ("(?i)\\b(?:feat\\.?|ft\\.?|featuring)\\b", "feat."),
        ("(?i)\\(\\s*(?:feat\\.?|ft\\.?|featuring)\\b", "(feat."),
        ("(?i)\\sW/", " feat. "),
        ("(?i)\\(Rmx\\)", "(Remix)"),
        ("(?i)\\bRmx\\b", "Remix"),
        ("[®™]", ""),
        ("(?i)\\bMissy Elliot\\b|\\bMissy Elliot$", "Missy Elliott"),
        ("(?i)\\bGangstarr\\b|\\bGangstarr$", "Gang Starr"),
        ("(?i)\\bSza\\b", "SZA"),
        ("(?i)\\bYoure\\b", "You're"),
        ("(?i)\\bIm\\b", "I'm"),
        ("(?i)\\bYouve\\b", "You've"),
        ("(?i)\\bCant\\b", "Can't"),
        ("(?i)\\bWont\\b", "Won't"),
        ("(?i)\\bDont\\b", "Don't"),
        ("(?i)\\bDj\\b", "DJ"),
        ("\\bfeat\\.([A-Za-z0-9])", "feat. $1"),
        ("(?i)\\b(dirty!)\\b", "(Dirty)"),
        ("(?i)\\(Original Mix\\)", ""),
        ("(?i)\\bdjcity\\b", ""),
        ("(?i)\\bintro - clean\\b", "Clean Intro"),
        ("(?i)\\bintro - dirty\\b", "Dirty Intro"),
        ("(?i)\\(clean - intro\\)", "(Clean Intro)"),
        ("(?i)\\(dirty - intro\\)", "(Dirty Intro)"),
        ("(?i)\\bIntro[:\\s/+\\-&]*outro\\b", "Intro"),
        ("(?i)\\bAca In\\b", "Acapella Intro"),
        ("(?i)\\bAca intro[:\\s/+\\-&]*aca outro\\b", "Acapella In-Out"),
        ("(?i)\\bAcapella Intro[:\\s/+\\-&]*aca out\\b", "Acapella In-Out"),
        ("(?i)\\bAca Out\\b", "Acapella Out"),
        ("(?i)\\bAcap-In\\b", "Acapella Intro"),
        ("(?i)\\bAcap - diy\\b", "Acapella DIY"),
        ("(?i)\\bAcap in[:\\s/+\\-&]*out\\b", "Acapella In-Out"),
        ("(?i)\\bAcap\\b", "Acapella"),
        ("(?i)\\bAcapella[\\s/+\\-]*In[:\\s/+\\-&]*Out\\b", "Acapella In-Out"),
        ("(?i)\\bAcapella[\\s/+\\-]*In\\b", "Acapella Intro"),
        ("(?i)\\bAcapella Intro[:\\s/+\\-&]*Out\\b", "Acapella In-Out"),
        ("(?i)\\bAcapella-Intro[:\\s/+\\-&]*Out\\b", "Acapella In-Out"),
        ("(?i)\\bAcapella-Intro\\b", "Acapella Intro"),
        ("(?i)\\bAcapella-out\\b", "Acapella Out"),
    ];
    assert(pairs_view(t@) =~= regex_name_substitutes());
    t
}


// ---------------------------------------------------------------------------
// Artist and title
// ---------------------------------------------------------------------------

/// File extensions that are removed from the end of an artist or title.
pub open spec fn file_extensions() -> Seq<Seq<char>> {
    seq![".mp3"@, ".flac"@, ".aif"@, ".aiff"@, ".m4a"@]
}

/// Remove `ext` from the end of `s` where `s` ends with it in any case.
pub open spec fn strip_extension(s: Seq<char>, ext: Seq<char>) -> Seq<char> {
    if ends_with_ci(s, ext) {
        s.take(s.len() - ext.len())
    } else {
        s
    }
}

pub open spec fn strip_extensions(s: Seq<char>, exts: Seq<Seq<char>>) -> Seq<char>
    decreases exts.len(),
{
    if exts.len() == 0 {
        s
    } else {
        strip_extensions(strip_extension(s, exts[0]), exts.drop_first())
    }
}

pub(crate) fn strip_extensions_exec(s: &str) -> (r: String)
    ensures
        r@ == strip_extensions(s@, file_extensions()),
{
    let exts: Vec<&str> = vec![".mp3", ".flac", ".aif", ".aiff", ".m4a"];
    let ghost e = file_extensions();
    assert(exts@.map_values(|x: &str| x@) =~= e);
    let mut cur = to_chars(s);
    let mut i: usize = 0;
    assert(e.skip(0) =~= e);
    while i < exts.len()
        invariant
            i <= exts@.len(),
            e == file_extensions(),
            exts@.map_values(|x: &str| x@) == e,
            strip_extensions(cur@, e.skip(i as int)) == strip_extensions(s@, e),
        decreases exts.len() - i,
    {
        assert(e.skip(i as int)[0] == exts@[i as int]@);
        assert(e.skip(i as int).drop_first() =~= e.skip(i + 1));
        if ends_with_ci_exec(&cur, exts[i]) {
            let n = to_chars(exts[i]).len();
            cur = slice_copy(&cur, 0, cur.len() - n);
        }
        i += 1;
    }
    assert(e.skip(i as int) =~= Seq::<Seq<char>>::empty());
    from_chars(&cur)
}

/// ASCII case folding of one character, as a code point.
pub open spec fn ascii_fold(c: char) -> u32 {
    if 'A' <= c <= 'Z' {
        (c as u32 + 32) as u32
    } else {
        c as u32
    }
}

/// `str::eq_ignore_ascii_case`.
pub open spec fn eq_ignore_ascii_case(a: Seq<char>, b: Seq<char>) -> bool {
    a.len() == b.len() && forall|i: int| 0 <= i < a.len() ==> ascii_fold(#[trigger] a[i]) == ascii_fold(b[i])
}

pub(crate) fn eq_ignore_ascii_case_exec(a: &[char], b: &str) -> (r: bool)
    ensures
        r == eq_ignore_ascii_case(a@, b@),
{
    let bc = to_chars(b);
    if a.len() != bc.len() {
        return false;
    }
    let mut i: usize = 0;
    while i < a.len()
        invariant
            i <= a@.len(),
            a@.len() == bc@.len(),
            bc@ == b@,
            forall|k: int| 0 <= k < i ==> ascii_fold(#[trigger] a@[k]) == ascii_fold(bc@[k]),
        decreases a.len() - i,
    {
        let x = a[i];
        let y = bc[i];
        let fx: u32 = if 'A' <= x && x <= 'Z' { (x as u32) + 32 } else { x as u32 };
        let fy: u32 = if 'A' <= y && y <= 'Z' { (y as u32) + 32 } else { y as u32 };
        if fx != fy {
            assert(ascii_fold(a@[i as int]) != ascii_fold(bc@[i as int]));
            return false;
        }
        i += 1;
    }
    true
}

/// `splitn(2, " - ")` of a "Various Artists" title: artist and title, or no artist when
/// there is no `" - "`.
pub open spec fn split_artist_title(t: Seq<char>) -> (Seq<char>, Seq<char>) {
    match find(t, " - "@) {
        Some(i) => (t.take(i), t.skip(i + 3)),
        None => (Seq::empty(), t),
    }
}

/// Upper-case titles of more than ten characters are title-cased, and then so are upper-case
/// artists of more than eight; titles made of single letters with dots are upper-cased.
pub open spec fn spec_fix_case(a: Seq<char>, t: Seq<char>) -> (Seq<char>, Seq<char>) {
    if uppercase(t) == t && t.len() > 10 && !regex_matches(RE_CHARS_AND_DOTS@, t) {
        (if uppercase(a) == a && a.len() > 8 { title_cased(a) } else { a }, title_cased(t))
    } else if regex_matches(RE_CHARS_AND_DOTS@, t) {
        (a, uppercase(t))
    } else {
        (a, t)
    }
}

/// Single letters with dots, such as `"a.b.c"`.
pub const RE_CHARS_AND_DOTS: &'static str = "(?i)^([a-z]\\.)+([a-z])?$";

/// The artist and title after extensions, substitutions and the `Various Artists` split,
/// before a repeated artist is dropped from the title.
pub open spec fn spec_artist_and_title_parts(artist: Seq<char>, title: Seq<char>) -> (Seq<char>, Seq<
    char,
>) {
    let a1 = substituted(strip_extensions(artist, file_extensions()), common_substitutes());
    let t1 = substituted(
        substituted(strip_extensions(title, file_extensions()), common_substitutes()),
        title_substitutes(),
    );
    let a2 = replace(
        regex_substituted(regex_substituted(a1, regex_name_substitutes()), regex_substitutes()),
        " / "@,
        ", "@,
    );
    let t2 = regex_substituted(regex_substituted(t1, regex_name_substitutes()), regex_substitutes());
    let (a3, t3) = if eq_ignore_ascii_case(a2, "Various Artists"@) {
        split_artist_title(t2)
    } else {
        (trim_start_matches(a2, "Various Artists - "@), t2)
    };
    (a3, t3)
}

/// The first stage: extensions, plain and regular-expression substitutions, "Various
/// Artists", a duplicated artist at the start of the title, and leading dots of the artist.
pub open spec fn spec_format_tags_start(artist: Seq<char>, title: Seq<char>) -> (Seq<char>, Seq<
    char,
>) {
    let (a3, t3) = spec_artist_and_title_parts(artist, title);
    let t4 = if starts_with(t3, a3 + " - "@) {
        replacen(t3, a3 + " - "@, ""@, 1)
    } else {
        t3
    };
    (trim_start_matches(a3, "."@), t4)
}

proof fn lemma_replacen_prefix_once(s: Seq<char>, p: Seq<char>)
    requires
        p.len() > 0,
        starts_with(s, p),
    ensures
        replacen(s, p, ""@, 1) == s.skip(p.len() as int),
        s == p + s.skip(p.len() as int),
{
    reveal_strlit("");
    assert(s.len() > 0);
    assert(replacen(s.skip(p.len() as int), p, ""@, 0) == s.skip(p.len() as int));
    assert(""@ + s.skip(p.len() as int) =~= s.skip(p.len() as int));
    assert(s.subrange(0, p.len() as int) == p);
    assert(s =~= p + s.skip(p.len() as int));
}

/// A title that repeats the artist loses it: where the title (after the substitutions)
/// begins with the artist and `" - "`, the first stage's title is the rest after that
/// prefix, so that the prefix and the result make up the title again; otherwise the title
/// is kept whole. The artist comes out the same either way, with leading dots dropped.
pub proof fn law_duplicate_artist_dropped(artist: Seq<char>, title: Seq<char>)
    ensures
        ({
            let (a, t) = spec_artist_and_title_parts(artist, title);
            let r = spec_format_tags_start(artist, title);
            &&& starts_with(t, a + " - "@) ==> t == a + " - "@ + r.1
            &&& !starts_with(t, a + " - "@) ==> r.1 == t
            &&& r.0 == trim_start_matches(a, "."@)
        }),
{
    let (a, t) = spec_artist_and_title_parts(artist, title);
    reveal_strlit(" - ");
    if starts_with(t, a + " - "@) {
        lemma_replacen_prefix_once(t, a + " - "@);
    }
}

/// For a plain artist and title, on which the substitutions change nothing, formatting the
/// title `artist - title` gives the same first stage as formatting `title` alone.
pub proof fn law_duplicate_artist_same_as_plain(artist: Seq<char>, title: Seq<char>)
    requires
        spec_artist_and_title_parts(artist, artist + " - "@ + title) == (artist, artist + " - "@
            + title),
        spec_artist_and_title_parts(artist, title) == (artist, title),
        !starts_with(title, artist + " - "@),
    ensures
        spec_format_tags_start(artist, artist + " - "@ + title) == spec_format_tags_start(
            artist,
            title,
        ),
{
    reveal_strlit(" - ");
    let p = artist + " - "@;
    let t = p + title;
    assert(t.subrange(0, p.len() as int) =~= p);
    assert(starts_with(t, p));
    lemma_replacen_prefix_once(t, p);
    assert(t.skip(p.len() as int) =~= title);
}

/// The second stage: mix names, featured artists and parentheses, BPM and key, the
/// substitutions once more, and case.
pub open spec fn spec_format_tags_end(a: Seq<char>, t: Seq<char>) -> (Seq<char>, Seq<char>) {
    let (a1, t1) = spec_move_feat(a, spec_use_parenthesis_for_mix(t));
    let t2 = spec_remove_bpm(
        spec_wrap_text_after_parentheses(
            spec_fix_nested_parentheses(spec_replace_dash_in_parentheses(t1)),
        ),
    );
    let a2 = spec_extract_feat_from_parentheses(spec_remove_unmatched_closing(a1));
    let t3 = spec_balance_parenthesis(replace(replace(t2, "(("@, "("@), "))"@, ")"@));
    let a4 = substituted(regex_substituted(a2, regex_substitutes()), common_substitutes());
    let t4 = substituted(regex_substituted(t3, regex_substitutes()), common_substitutes());
    let (a5, t5) = spec_fix_case(a4, t4);
    (trim(a5), trim(t5))
}

/// Formatted artist and title.
pub open spec fn spec_format_tags(artist: Seq<char>, title: Seq<char>) -> (Seq<char>, Seq<char>) {
    let (a, t) = spec_format_tags_start(artist, title);
    spec_format_tags_end(a, t)
}

fn format_tags_start(artist: &str, title: &str) -> (r: (String, String))
    ensures
        (r.0@, r.1@) == spec_format_tags_start(artist@, title@),
{
    let common = common_substitutes_table();
    let title_table = title_substitutes_table();
    let names = regex_name_substitutes_table();
    let regexes = regex_substitutes_table();
    let a0 = strip_extensions_exec(artist);
    let t0 = strip_extensions_exec(title);
    let a1 = substitute_all(a0.as_str(), &common);
    let t1 = substitute_all(substitute_all(t0.as_str(), &common).as_str(), &title_table);
    let a2n = regex_substitute_all(a1.as_str(), &names);
    let a2r = regex_substitute_all(a2n.as_str(), &regexes);
    let a2 = replace_str(&to_chars(a2r.as_str()), " / ", ", ");
    let t2n = regex_substitute_all(t1.as_str(), &names);
    let t2 = regex_substitute_all(t2n.as_str(), &regexes);
    let (a3, t3): (Vec<char>, Vec<char>) = if eq_ignore_ascii_case_exec(&a2, "Various Artists") {
        let tc = to_chars(t2.as_str());
        let dash = to_chars(" - ");
        proof {
            reveal_strlit(" - ");
        }
        match find_seq(&tc, &dash) {
            Some(i) => {
                proof {
                    lemma_find_from_some(tc@, dash@, 0);
                }
                let n = tc.len();
                assert(i + 3 <= n);
                (slice_copy(&tc, 0, i), slice_copy(&tc, i + 3, n))
            },
            None => (Vec::new(), tc),
        }
    } else {
        (trim_start_matches_chars(&a2, &to_chars("Various Artists - ")), to_chars(t2.as_str()))
    };
    let with_dash = concat(&a3, &to_chars(" - "));
    let empty: Vec<char> = Vec::new();
    assert(empty@ =~= ""@) by {
        reveal_strlit("");
    }
    let t4 = if seq_starts_with(&t3, &with_dash) {
        replacen_chars(&t3, &with_dash, &empty, 1)
    } else {
        t3
    };
    let a4 = trim_start_matches_chars(&a3, &to_chars("."));
    (from_chars(&a4), from_chars(&t4))
}

fn fix_case(a: String, t: String) -> (r: (String, String))
    ensures
        (r.0@, r.1@) == spec_fix_case(a@, t@),
{
    let upper_t = to_uppercase(t.as_str());
    let dots = regex_is_match(RE_CHARS_AND_DOTS, t.as_str());
    let tc = to_chars(t.as_str());
    if chars_eq(&to_chars(upper_t.as_str()), &tc) && tc.len() > 10 && !dots {
        let upper_a = to_uppercase(a.as_str());
        let ac = to_chars(a.as_str());
        let new_a = if chars_eq(&to_chars(upper_a.as_str()), &ac) && ac.len() > 8 {
            titlecase(a.as_str())
        } else {
            a
        };
        (new_a, titlecase(t.as_str()))
    } else if dots {
        (a, upper_t)
    } else {
        (a, t)
    }
}

fn format_tags_end(artist: String, title: String) -> (r: (String, String))
    ensures
        (r.0@, r.1@) == spec_format_tags_end(artist@, title@),
{
    let mut a = artist;
    let mut t = title;
    use_parenthesis_for_mix(&mut t);
    move_feat_from_title_to_artist(&mut a, &mut t);
    replace_dash_in_parentheses(&mut t);
    fix_nested_parentheses(&mut t);
    wrap_text_after_parentheses(&mut t);
    remove_bpm_in_parentheses_from_end(&mut t);
    remove_unmatched_closing_parenthesis(&mut a);
    let tc = replace_str(&replace_str(&to_chars(t.as_str()), "((", "("), "))", ")");
    let mut t = from_chars(&tc);
    extract_feat_from_parentheses(&mut a);
    balance_parenthesis(&mut t);
    let common = common_substitutes_table();
    let regexes = regex_substitutes_table();
    let a4 = substitute_all(regex_substitute_all(a.as_str(), &regexes).as_str(), &common);
    let t4 = substitute_all(regex_substitute_all(t.as_str(), &regexes).as_str(), &common);
    let (a5, t5) = fix_case(a4, t4);
    (trim_string(a5.as_str()), trim_string(t5.as_str()))
}

/// Return the formatted artist and title.
pub fn format_tags_for_artist_and_title(artist: &str, title: &str) -> (r: (String, String))
    ensures
        (r.0@, r.1@) == spec_format_tags(artist@, title@),
{
    let (a, t) = format_tags_start(artist, title);
    format_tags_end(a, t)
}

// ---------------------------------------------------------------------------
// Laws
// ---------------------------------------------------------------------------

/// Formatted artist and title never begin or end with whitespace.
pub proof fn law_formatted_tags_trimmed(artist: Seq<char>, title: Seq<char>)
    ensures
        is_trimmed(spec_format_tags(artist, title).0),
        is_trimmed(spec_format_tags(artist, title).1),
{
    let (a, t) = spec_format_tags_start(artist, title);
    let (a1, t1) = spec_move_feat(a, spec_use_parenthesis_for_mix(t));
    let t2 = spec_remove_bpm(
        spec_wrap_text_after_parentheses(
            spec_fix_nested_parentheses(spec_replace_dash_in_parentheses(t1)),
        ),
    );
    let a2 = spec_extract_feat_from_parentheses(spec_remove_unmatched_closing(a1));
    let t3 = spec_balance_parenthesis(replace(replace(t2, "(("@, "("@), "))"@, ")"@));
    let a4 = substituted(regex_substituted(a2, regex_substitutes()), common_substitutes());
    let t4 = substituted(regex_substituted(t3, regex_substitutes()), common_substitutes());
    let (a5, t5) = spec_fix_case(a4, t4);
    lemma_trim_is_trimmed(a5);
    lemma_trim_is_trimmed(t5);
}

/// Whitespace fixing, album formatting and each filename field leave no whitespace at
/// either end.
pub proof fn law_whitespace_trimmed(s: Seq<char>)
    ensures
        is_trimmed(spec_fix_whitespace(s)),
        is_trimmed(spec_format_album(s)),
        is_trimmed(spec_filename_field(s)),
{
    lemma_trim_is_trimmed(regex_replaced(RE_MULTIPLE_SPACES@, s, " "@));
    lemma_trim_is_trimmed(
        regex_replaced(RE_MULTIPLE_SPACES@, regex_replaced(RE_WWW@, trim(s), ""@), " "@),
    );
    lemma_trim_is_trimmed(regex_substituted(replace(s, "\""@, "''"@), filename_substitutes()));
}

} // verus!

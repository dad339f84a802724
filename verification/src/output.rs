//! Differences between two texts, marked up for coloured display.
use vstd::prelude::*;

use difference::{Changeset, Difference};

use crate::text::{
    char_is_whitespace, extend, find, find_seq, from_chars, is_whitespace, lemma_find_from_some,
    to_chars,
};

verus! {

/// One part of a character-level difference.
#[derive(Debug, Clone, Copy, PartialEq, Eq, Structural)]
pub enum Change {
    /// In both texts.
    Same,
    /// Only in the new text.
    Add,
    /// Only in the old text.
    Rem,
}

/// How a part of a text is shown.
#[derive(Debug, Clone, Copy, PartialEq, Eq, Structural)]
pub enum Style {
    Plain,
    /// Removed text.
    Red,
    /// Removed whitespace, shown as a red background.
    OnRed,
    /// Added text.
    Green,
    /// Added whitespace, shown as a green background.
    OnGreen,
}

/// The character-level changeset that `difference::Changeset::new(old, new, "")` computes:
/// its parts in order, each with its text.
pub uninterp spec fn char_changes(old: Seq<char>, new: Seq<char>) -> Seq<(Change, Seq<char>)>;

/// The texts of the parts that are not of kind `skip`, in order.
pub open spec fn side_text(d: Seq<(Change, Seq<char>)>, skip: Change) -> Seq<char>
    decreases d.len(),
{
    if d.len() == 0 {
        Seq::empty()
    } else {
        side_text(d.drop_last(), skip) + (if d.last().0 == skip {
            Seq::empty()
        } else {
            d.last().1
        })
    }
}

/// `difference::Changeset::new(old, new, "")`: the character-level differences between two
/// texts. The contract names the parts, and says what the crate's merge step shows: the
/// parts that are not additions spell the old text and those that are not removals spell the
/// new one.
#[verifier::external_body]
fn changeset(old: &str, new: &str) -> (r: Vec<(Change, String)>)
    ensures
        r@.map_values(|p: (Change, String)| (p.0, p.1@)) == char_changes(old@, new@),
        side_text(r@.map_values(|p: (Change, String)| (p.0, p.1@)), Change::Add) == old@,
        side_text(r@.map_values(|p: (Change, String)| (p.0, p.1@)), Change::Rem) == new@,
{
    let mut parts = Vec::new();
    for d in Changeset::new(old, new, "").diffs {
        match d {
            Difference::Same(s) => parts.push((Change::Same, s)),
            Difference::Add(s) => parts.push((Change::Add, s)),
            Difference::Rem(s) => parts.push((Change::Rem, s)),
        }
    }
    parts
}

/// Every character is whitespace (true of the empty text).
pub open spec fn all_whitespace(s: Seq<char>) -> bool {
    forall|i: int| 0 <= i < s.len() ==> is_whitespace(#[trigger] s[i])
}

/// The number of bytes a character takes in UTF-8.
pub open spec fn utf8_width(c: char) -> nat {
    if (c as u32) < 0x80 {
        1
    } else if (c as u32) < 0x800 {
        2
    } else if (c as u32) < 0x10000 {
        3
    } else {
        4
    }
}

/// The number of bytes a text takes in UTF-8.
pub open spec fn utf8_len(s: Seq<char>) -> nat
    decreases s.len(),
{
    if s.len() == 0 {
        0
    } else {
        utf8_len(s.drop_last()) + utf8_width(s.last())
    }
}

/// Spaces before the old and the new text so that the first common part of at least two
/// characters, not all whitespace, starts in the same byte column of both; the parts from
/// index `i` on are searched.
pub open spec fn alignment_from(
    d: Seq<(Change, Seq<char>)>,
    old: Seq<char>,
    new: Seq<char>,
    i: int,
) -> (nat, nat)
    decreases d.len() - i,
{
    if i < 0 || i >= d.len() {
        (0, 0)
    } else if d[i].0 == Change::Same && !(all_whitespace(d[i].1) || d[i].1.len() < 2) && find(
        old,
        d[i].1,
    ) is Some && find(new, d[i].1) is Some {
        let oi = utf8_len(old.take(find(old, d[i].1)->Some_0));
        let ni = utf8_len(new.take(find(new, d[i].1)->Some_0));
        if oi > ni {
            (0, (oi - ni) as nat)
        } else {
            ((ni - oi) as nat, 0)
        }
    } else {
        alignment_from(d, old, new, i + 1)
    }
}

/// The styled parts of one side: common parts plain, the side's own parts coloured, with a
/// background where they are only whitespace; the other side's parts left out.
pub open spec fn side_parts(d: Seq<(Change, Seq<char>)>, old_side: bool) -> Seq<(Seq<char>, Style)>
    decreases d.len(),
{
    if d.len() == 0 {
        Seq::empty()
    } else {
        let (k, t) = d.last();
        side_parts(d.drop_last(), old_side) + (if k == Change::Same {
            seq![(t, Style::Plain)]
        } else if old_side && k == Change::Rem {
            seq![(t, if all_whitespace(t) { Style::OnRed } else { Style::Red })]
        } else if !old_side && k == Change::Add {
            seq![(t, if all_whitespace(t) { Style::OnGreen } else { Style::Green })]
        } else {
            Seq::empty()
        })
    }
}

/// `n` spaces as a plain part, or nothing.
pub open spec fn padding(n: nat) -> Seq<(Seq<char>, Style)> {
    if n == 0 {
        Seq::empty()
    } else {
        seq![(Seq::new(n, |i: int| ' '), Style::Plain)]
    }
}

/// `n` spaces.
pub open spec fn spaces(n: nat) -> Seq<char> {
    Seq::new(n, |i: int| ' ')
}

/// The spaces put before the old and the new text: none unless the diff is stacked.
pub open spec fn diff_indent(old: Seq<char>, new: Seq<char>, stacked: bool) -> (nat, nat) {
    if stacked {
        alignment_from(char_changes(old, new), old, new, 0)
    } else {
        (0, 0)
    }
}

/// At most one side is indented.
proof fn lemma_alignment_one_side(d: Seq<(Change, Seq<char>)>, old: Seq<char>, new: Seq<char>, i: int)
    ensures
        alignment_from(d, old, new, i).0 == 0 || alignment_from(d, old, new, i).1 == 0,
    decreases d.len() - i,
{
    if 0 <= i < d.len() {
        lemma_alignment_one_side(d, old, new, i + 1);
    }
}

proof fn lemma_padding_text(n: nat)
    ensures
        parts_text(padding(n)) == spaces(n),
{
    if n == 0 {
        assert(parts_text(Seq::<(Seq<char>, Style)>::empty()) =~= spaces(0));
    } else {
        lemma_parts_text_one((spaces(n), Style::Plain));
        assert(padding(n) =~= seq![(spaces(n), Style::Plain)]);
    }
}

/// Both sides of the difference between two texts; stacked sides are aligned first.
pub open spec fn spec_color_diff(old: Seq<char>, new: Seq<char>, stacked: bool) -> (Seq<
    (Seq<char>, Style),
>, Seq<(Seq<char>, Style)>) {
    let d = char_changes(old, new);
    let (po, pn) = if stacked {
        alignment_from(d, old, new, 0)
    } else {
        (0, 0)
    };
    (padding(po) + side_parts(d, true), padding(pn) + side_parts(d, false))
}

/// The text of styled parts.
pub open spec fn parts_text(p: Seq<(Seq<char>, Style)>) -> Seq<char>
    decreases p.len(),
{
    if p.len() == 0 {
        Seq::empty()
    } else {
        parts_text(p.drop_last()) + p.last().0
    }
}

pub open spec fn parts_view(p: Seq<(String, Style)>) -> Seq<(Seq<char>, Style)> {
    p.map_values(|x: (String, Style)| (x.0@, x.1))
}

proof fn lemma_parts_text_push(p: Seq<(Seq<char>, Style)>, q: Seq<(Seq<char>, Style)>)
    ensures
        parts_text(p + q) == parts_text(p) + parts_text(q),
    decreases q.len(),
{
    if q.len() == 0 {
        assert(p + q =~= p);
    } else {
        lemma_parts_text_push(p, q.drop_last());
        assert((p + q).drop_last() =~= p + q.drop_last());
    }
}

/// Without the padding, each side's parts spell the text of the changeset's side.
proof fn lemma_side_parts_text(d: Seq<(Change, Seq<char>)>)
    ensures
        parts_text(side_parts(d, true)) == side_text(d, Change::Add),
        parts_text(side_parts(d, false)) == side_text(d, Change::Rem),
    decreases d.len(),
{
    if d.len() > 0 {
        lemma_side_parts_text(d.drop_last());
        let (k, t) = d.last();
        let old_tail: Seq<(Seq<char>, Style)> = if k == Change::Same {
            seq![(t, Style::Plain)]
        } else if k == Change::Rem {
            seq![(t, if all_whitespace(t) { Style::OnRed } else { Style::Red })]
        } else {
            Seq::empty()
        };
        let new_tail: Seq<(Seq<char>, Style)> = if k == Change::Same {
            seq![(t, Style::Plain)]
        } else if k == Change::Add {
            seq![(t, if all_whitespace(t) { Style::OnGreen } else { Style::Green })]
        } else {
            Seq::empty()
        };
        lemma_parts_text_push(side_parts(d.drop_last(), true), old_tail);
        lemma_parts_text_push(side_parts(d.drop_last(), false), new_tail);
        lemma_parts_text_one((t, Style::Plain));
        lemma_parts_text_one((t, Style::OnRed));
        lemma_parts_text_one((t, Style::Red));
        lemma_parts_text_one((t, Style::OnGreen));
        lemma_parts_text_one((t, Style::Green));
        assert(parts_text(Seq::<(Seq<char>, Style)>::empty()) =~= Seq::<char>::empty());
    }
}

proof fn lemma_parts_text_one(x: (Seq<char>, Style))
    ensures
        parts_text(seq![x]) == x.0,
{
    assert(seq![x].drop_last() =~= Seq::<(Seq<char>, Style)>::empty());
    assert(parts_text(Seq::<(Seq<char>, Style)>::empty()) == Seq::<char>::empty());
    assert(Seq::<char>::empty() + x.0 =~= x.0);
}

fn all_whitespace_exec(s: &[char]) -> (b: bool)
    ensures
        b == all_whitespace(s@),
{
    let mut i: usize = 0;
    while i < s.len()
        invariant
            i <= s@.len(),
            forall|k: int| 0 <= k < i ==> is_whitespace(#[trigger] s@[k]),
        decreases s.len() - i,
    {
        if !char_is_whitespace(s[i]) {
            return false;
        }
        i += 1;
    }
    true
}

proof fn lemma_utf8_len_take(s: Seq<char>, i: int)
    requires
        0 <= i <= s.len(),
    ensures
        utf8_len(s.take(i)) <= utf8_len(s),
    decreases s.len(),
{
    if i < s.len() {
        assert(s.drop_last().take(i) =~= s.take(i));
        lemma_utf8_len_take(s.drop_last(), i);
    } else {
        assert(s.take(i) =~= s);
    }
}

fn utf8_len_exec(s: &[char], n: usize) -> (r: usize)
    requires
        n <= s@.len(),
        utf8_len(s@) <= usize::MAX,
    ensures
        r == utf8_len(s@.take(n as int)),
{
    let mut r: usize = 0;
    let mut i: usize = 0;
    assert(s@.take(0) =~= Seq::<char>::empty());
    while i < n
        invariant
            i <= n <= s@.len(),
            r == utf8_len(s@.take(i as int)),
            utf8_len(s@) <= usize::MAX,
        decreases n - i,
    {
        assert(s@.take(i + 1).drop_last() =~= s@.take(i as int));
        proof {
            lemma_utf8_len_take(s@, i + 1);
        }
        let u = s[i] as u32;
        let w: usize = if u < 0x80 {
            1
        } else if u < 0x800 {
            2
        } else if u < 0x10000 {
            3
        } else {
            4
        };
        r = r + w;
        i += 1;
    }
    r
}

/// Spaces as a plain part, where there are any.
fn push_padding(v: &mut Vec<(String, Style)>, n: usize)
    requires
        old(v)@.len() == 0,
    ensures
        parts_view(final(v)@) == padding(n as nat),
{
    if n > 0 {
        let mut sp: Vec<char> = Vec::new();
        let mut i: usize = 0;
        while i < n
            invariant
                i <= n,
                sp@ == Seq::new(i as nat, |k: int| ' '),
            decreases n - i,
        {
            sp.push(' ');
            i += 1;
            assert(sp@ =~= Seq::new(i as nat, |k: int| ' '));
        }
        v.push((from_chars(&sp), Style::Plain));
    }
    assert(parts_view(v@) =~= padding(n as nat));
}

/// The old and the new text as styled parts: text only in the old one is red, text only in
/// the new one green, and whitespace-only changes get a coloured background. A stacked diff
/// indents one side so that the first common part lines up.
pub fn color_diff(old: &str, new: &str, stacked: bool) -> (r: (Vec<(String, Style)>, Vec<
    (String, Style),
>))
    requires
        utf8_len(old@) <= usize::MAX,
        utf8_len(new@) <= usize::MAX,
    ensures
        (parts_view(r.0@), parts_view(r.1@)) == spec_color_diff(old@, new@, stacked),
        !stacked ==> parts_text(parts_view(r.0@)) == old@ && parts_text(parts_view(r.1@)) == new@,
        parts_text(parts_view(r.0@)) == spaces(diff_indent(old@, new@, stacked).0) + old@,
        parts_text(parts_view(r.1@)) == spaces(diff_indent(old@, new@, stacked).1) + new@,
        diff_indent(old@, new@, stacked).0 == 0 || diff_indent(old@, new@, stacked).1 == 0,
{
    let parts = changeset(old, new);
    let ghost d = char_changes(old@, new@);
    let oc = to_chars(old);
    let nc = to_chars(new);
    let mut pad_old: usize = 0;
    let mut pad_new: usize = 0;
    if stacked {
        let mut i: usize = 0;
        let mut found = false;
        while i < parts.len() && !found
            invariant
                parts@.map_values(|p: (Change, String)| (p.0, p.1@)) == d,
                oc@ == old@,
                nc@ == new@,
                utf8_len(old@) <= usize::MAX,
                utf8_len(new@) <= usize::MAX,
                i <= parts@.len(),
                !found ==> alignment_from(d, old@, new@, 0) == alignment_from(d, old@, new@, i as int),
                !found ==> pad_old == 0 && pad_new == 0,
                found ==> (pad_old as nat, pad_new as nat) == alignment_from(d, old@, new@, 0),
            decreases parts.len() - i,
        {
            let (kind, text) = &parts[i];
            assert(d[i as int] == (*kind, text@));
            if *kind == Change::Same {
                let tc = to_chars(text.as_str());
                if !(all_whitespace_exec(&tc) || tc.len() < 2) {
                    let of = find_seq(&oc, &tc);
                    let nf = find_seq(&nc, &tc);
                    if of.is_some() && nf.is_some() {
                        let o_idx = of.unwrap();
                        let n_idx = nf.unwrap();
                        proof {
                            lemma_find_from_some(oc@, tc@, 0);
                            lemma_find_from_some(nc@, tc@, 0);
                        }
                        let oi = utf8_len_exec(&oc, o_idx);
                        let ni = utf8_len_exec(&nc, n_idx);
                        if oi > ni {
                            pad_new = oi - ni;
                        } else {
                            pad_old = ni - oi;
                        }
                        found = true;
                        assert((pad_old as nat, pad_new as nat) == alignment_from(d, old@, new@, i as int));
                    }
                }
            }
            i += 1;
        }
        if !found {
            assert(alignment_from(d, old@, new@, i as int) == (0nat, 0nat));
        }
    }
    let mut old_parts: Vec<(String, Style)> = Vec::new();
    let mut new_parts: Vec<(String, Style)> = Vec::new();
    push_padding(&mut old_parts, pad_old);
    push_padding(&mut new_parts, pad_new);
    let ghost po = parts_view(old_parts@);
    let ghost pn = parts_view(new_parts@);
    let mut i: usize = 0;
    assert(d.take(0) =~= Seq::<(Change, Seq<char>)>::empty());
    while i < parts.len()
        invariant
            parts@.map_values(|p: (Change, String)| (p.0, p.1@)) == d,
            i <= parts@.len(),
            parts_view(old_parts@) == po + side_parts(d.take(i as int), true),
            parts_view(new_parts@) == pn + side_parts(d.take(i as int), false),
        decreases parts.len() - i,
    {
        let (kind, text) = &parts[i];
        assert(d[i as int] == (*kind, text@));
        assert(d.take(i + 1).drop_last() =~= d.take(i as int));
        assert(d.take(i + 1).last() == d[i as int]);
        let ghost old_before = old_parts@;
        let ghost new_before = new_parts@;
        let tc = to_chars(text.as_str());
        match kind {
            Change::Same => {
                old_parts.push((text.clone(), Style::Plain));
                new_parts.push((text.clone(), Style::Plain));
                assert(parts_view(old_parts@) =~= parts_view(old_before).push((text@, Style::Plain)));
                assert(parts_view(new_parts@) =~= parts_view(new_before).push((text@, Style::Plain)));
            },
            Change::Add => {
                let style = if all_whitespace_exec(&tc) {
                    Style::OnGreen
                } else {
                    Style::Green
                };
                new_parts.push((text.clone(), style));
                assert(parts_view(new_parts@) =~= parts_view(new_before).push((text@, style)));
                assert(old_parts@ == old_before);
            },
            Change::Rem => {
                let style = if all_whitespace_exec(&tc) {
                    Style::OnRed
                } else {
                    Style::Red
                };
                old_parts.push((text.clone(), style));
                assert(parts_view(old_parts@) =~= parts_view(old_before).push((text@, style)));
                assert(new_parts@ == new_before);
            },
        }
        assert(parts_view(old_parts@) =~= po + side_parts(d.take(i + 1), true));
        assert(parts_view(new_parts@) =~= pn + side_parts(d.take(i + 1), false));
        i += 1;
    }
    assert(d.take(parts@.len() as int) =~= d);
    proof {
        lemma_side_parts_text(d);
        lemma_alignment_one_side(d, old@, new@, 0);
        lemma_padding_text(pad_old as nat);
        lemma_padding_text(pad_new as nat);
        lemma_parts_text_push(padding(pad_old as nat), side_parts(d, true));
        lemma_parts_text_push(padding(pad_new as nat), side_parts(d, false));
        if !stacked {
            assert(padding(0) =~= Seq::<(Seq<char>, Style)>::empty());
            assert(padding(0) + side_parts(d, true) =~= side_parts(d, true));
            assert(padding(0) + side_parts(d, false) =~= side_parts(d, false));
        }
    }
    (old_parts, new_parts)
}

} // verus!

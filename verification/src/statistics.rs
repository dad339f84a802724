//! Counts of what a run changed.
use vstd::prelude::*;

use crate::numfmt::{decimal, decimal_chars};
use crate::text::{extend, from_chars, to_chars};

verus! {

/// Renaming statistics.
#[derive(Debug, Clone, Copy)]
pub struct Statistics {
    pub tags: usize,
    pub tags_fixed: usize,
    pub to_rename: usize,
    pub renamed: usize,
    pub to_remove: usize,
    pub removed: usize,
    pub duplicates: usize,
    pub overwritten: usize,
    pub failed: usize,
    pub converted: usize,
}

/// Nothing needs to change: no tags to fix, nothing to rename or remove, no duplicates,
/// overwrites, failures or conversions.
pub open spec fn spec_no_changes(s: Statistics) -> bool {
    s.tags == 0 && s.to_rename == 0 && s.to_remove == 0 && s.duplicates == 0 && s.overwritten == 0
        && s.failed == 0 && s.converted == 0
}

/// `label` and a count as one line.
pub open spec fn count_line(label: Seq<char>, n: usize) -> Seq<char> {
    label + decimal(n as nat) + "\n"@
}

/// `label`, `done / total` as one line.
pub open spec fn ratio_line(label: Seq<char>, done: usize, total: usize) -> Seq<char> {
    label + decimal(done as nat) + " / "@ + decimal(total as nat) + "\n"@
}

/// The summary text: `All Good`, or the counts, each optional line only where its count is
/// nonzero.
pub open spec fn statistics_text(s: Statistics) -> Seq<char> {
    if spec_no_changes(s) {
        "All Good"@
    } else {
        "Updated:\n"@ + ratio_line("Fix tags:    "@, s.tags_fixed, s.tags) + ratio_line(
            "Renamed:     "@,
            s.renamed,
            s.to_rename,
        ) + (if s.converted > 0 {
            count_line("Converted:   "@, s.converted)
        } else {
            Seq::empty()
        }) + (if s.to_remove > 0 {
            ratio_line("Deleted:     "@, s.removed, s.to_remove)
        } else {
            Seq::empty()
        }) + (if s.overwritten > 0 {
            count_line("Overwritten: "@, s.overwritten)
        } else {
            Seq::empty()
        }) + (if s.duplicates > 0 {
            count_line("Duplicate:   "@, s.duplicates)
        } else {
            Seq::empty()
        }) + (if s.failed > 0 {
            count_line("Failed:      "@, s.failed)
        } else {
            Seq::empty()
        })
    }
}

impl Default for Statistics {
    fn default() -> (s: Self)
        ensures
            s.tags == 0 && s.tags_fixed == 0 && s.to_rename == 0 && s.renamed == 0 && s.to_remove
                == 0 && s.removed == 0 && s.duplicates == 0 && s.overwritten == 0 && s.failed == 0
                && s.converted == 0,
    {
        Statistics {
            tags: 0,
            tags_fixed: 0,
            to_rename: 0,
            renamed: 0,
            to_remove: 0,
            removed: 0,
            duplicates: 0,
            overwritten: 0,
            failed: 0,
            converted: 0,
        }
    }
}

fn push_count_line(v: &mut Vec<char>, label: &str, n: usize)
    ensures
        final(v)@ == old(v)@ + count_line(label@, n),
{
    extend(v, &to_chars(label));
    extend(v, &decimal_chars(n as u64));
    extend(v, &to_chars("\n"));
}

fn push_ratio_line(v: &mut Vec<char>, label: &str, done: usize, total: usize)
    ensures
        final(v)@ == old(v)@ + ratio_line(label@, done, total),
{
    extend(v, &to_chars(label));
    extend(v, &decimal_chars(done as u64));
    extend(v, &to_chars(" / "));
    extend(v, &decimal_chars(total as u64));
    extend(v, &to_chars("\n"));
}

impl Statistics {
    /// Return true if nothing needs to change.
    pub fn no_changes(&self) -> (b: bool)
        ensures
            b == spec_no_changes(*self),
    {
        self.tags == 0 && self.to_rename == 0 && self.to_remove == 0 && self.duplicates == 0
            && self.overwritten == 0 && self.failed == 0 && self.converted == 0
    }

    /// The summary text.
    pub fn to_string(&self) -> (s: String)
        ensures
            s@ == statistics_text(*self),
    {
        if self.no_changes() {
            return String::from_str("All Good");
        }
        let mut v = to_chars("Updated:\n");
        push_ratio_line(&mut v, "Fix tags:    ", self.tags_fixed, self.tags);
        push_ratio_line(&mut v, "Renamed:     ", self.renamed, self.to_rename);
        if self.converted > 0 {
            push_count_line(&mut v, "Converted:   ", self.converted);
        }
        if self.to_remove > 0 {
            push_ratio_line(&mut v, "Deleted:     ", self.removed, self.to_remove);
        }
        if self.overwritten > 0 {
            push_count_line(&mut v, "Overwritten: ", self.overwritten);
        }
        if self.duplicates > 0 {
            push_count_line(&mut v, "Duplicate:   ", self.duplicates);
        }
        if self.failed > 0 {
            push_count_line(&mut v, "Failed:      ", self.failed);
        }
        from_chars(&v)
    }
}

} // verus!

//! The renamer's decisions for each track: whether it is excluded, whether its tags are
//! rewritten, whether and how its file is renamed, and what is counted. Reading and
//! writing files, asking for confirmation and printing are left to the caller, which
//! reports what happened.
use vstd::prelude::*;

use crate::config::Config;
use crate::file_format::{format_text, FileFormat};
use crate::genre::{genre_for_directory, genre_mappings, lookup};
use crate::paths::{dot_split, file_name, trimmed};
use crate::statistics::Statistics;
use crate::text::{
    chars_eq, extend, from_chars, slice_copy, str_eq, to_chars, trim, trim_chars,
    trim_end_char_chars,
};
use crate::paths::join;
use crate::tags::{opt_view, spec_parse_tag_data, tags_changed, FileTags};
use crate::track::{
    names_track, spec_formatted_filename, spec_formatted_tags, Track, TrackMetadata, TrackView,
};
use crate::unicode::{lowercase, to_lowercase};

verus! {

// ---------------------------------------------------------------------------
// Exclusion
// ---------------------------------------------------------------------------

/// The track is named, by name or full file name, in the exclude list.
pub open spec fn spec_is_excluded(track: Track, excluded: Seq<String>) -> bool {
    exists|i: int| 0 <= i < excluded.len() && names_track(track@, #[trigger] excluded[i]@)
}

/// Whether the user's exclude list names the track.
pub fn is_excluded(track: &Track, excluded: &Vec<String>) -> (b: bool)
    ensures
        b == spec_is_excluded(*track, excluded@),
{
    let mut i: usize = 0;
    while i < excluded.len()
        invariant
            i <= excluded@.len(),
            forall|k: int| 0 <= k < i ==> !names_track(track@, #[trigger] excluded@[k]@),
        decreases excluded.len() - i,
    {
        let e = &excluded[i];
        if str_eq(track.name.as_str(), e.as_str()) || track.matches_filename(e.as_str()) {
            return true;
        }
        i += 1;
    }
    false
}

// ---------------------------------------------------------------------------
// Path components
// ---------------------------------------------------------------------------

/// The pieces of `s` between separators `c`, empty ones included.
pub open spec fn split_char(s: Seq<char>, c: char) -> Seq<Seq<char>>
    decreases s.len(),
{
    if s.len() == 0 {
        seq![Seq::empty()]
    } else {
        let p = split_char(s.drop_last(), c);
        if s.last() == c {
            p.push(Seq::empty())
        } else {
            p.update(p.len() - 1, p.last().push(s.last()))
        }
    }
}

/// The pieces that name something: neither empty nor `.`.
pub open spec fn nonempty(p: Seq<Seq<char>>) -> Seq<Seq<char>>
    decreases p.len(),
{
    if p.len() == 0 {
        Seq::empty()
    } else if p.last().len() == 0 || p.last() == seq!['.'] {
        nonempty(p.drop_last())
    } else {
        nonempty(p.drop_last()).push(p.last())
    }
}

/// Where a path begins: `/` for an absolute path, `.` for one that begins with `./`
/// (or is `.`), nothing otherwise.
pub open spec fn path_head(path: Seq<char>) -> Seq<Seq<char>> {
    if path.len() > 0 && path[0] == '/' {
        seq![seq!['/']]
    } else if path.len() > 0 && path[0] == '.' && (path.len() == 1 || path[1] == '/') {
        seq![seq!['.']]
    } else {
        Seq::empty()
    }
}

/// The components of a `/`-separated path, as `Path::components` gives them: the head,
/// then the names between separators; empty names and `.` are left out.
pub open spec fn components(path: Seq<char>) -> Seq<Seq<char>> {
    path_head(path) + nonempty(split_char(path, '/'))
}

/// From component `i` on, `main` holds all of `sub`.
pub open spec fn run_matches(main: Seq<Seq<char>>, sub: Seq<Seq<char>>, i: int) -> bool {
    &&& i + sub.len() <= main.len()
    &&& forall|j: int| 0 <= j < sub.len() ==> main[i + j] == #[trigger] sub[j]
}

/// Some component of `main` starts a run that holds all of `sub`.
pub open spec fn spec_contains_subpath(main: Seq<Seq<char>>, sub: Seq<Seq<char>>) -> bool {
    &&& sub.len() <= main.len()
    &&& sub.len() > 0
    &&& exists|i: int| 0 <= i < main.len() && #[trigger] run_matches(main, sub, i)
}

proof fn lemma_split_char_nonempty(s: Seq<char>, c: char)
    ensures
        split_char(s, c).len() >= 1,
    decreases s.len(),
{
    if s.len() > 0 {
        lemma_split_char_nonempty(s.drop_last(), c);
    }
}

fn components_exec(path: &str) -> (r: Vec<Vec<char>>)
    ensures
        r@.len() == components(path@).len(),
        forall|k: int| 0 <= k < r@.len() ==> #[trigger] r@[k]@ == components(path@)[k],
{
    let s = to_chars(path);
    let mut r: Vec<Vec<char>> = Vec::new();
    if s.len() > 0 && s[0] == '/' {
        let mut root: Vec<char> = Vec::new();
        root.push('/');
        r.push(root);
    } else if s.len() > 0 && s[0] == '.' && (s.len() == 1 || s[1] == '/') {
        let mut cur: Vec<char> = Vec::new();
        cur.push('.');
        r.push(cur);
    }
    let ghost head: Seq<Seq<char>> = path_head(s@);
    assert(r@.len() == head.len() && forall|k: int| 0 <= k < r@.len() ==> #[trigger] r@[k]@ == head[k]);
    assert(r@.len() == head.len());
    let mut piece: Vec<char> = Vec::new();
    let mut i: usize = 0;
    assert(s@.take(0) =~= Seq::<char>::empty());
    assert(nonempty(split_char(Seq::<char>::empty(), '/').drop_last()) =~= Seq::<Seq<char>>::empty());
    while i < s.len()
        invariant
            i <= s@.len(),
            s@ == path@,
            split_char(s@.take(i as int), '/').len() >= 1,
            piece@ == split_char(s@.take(i as int), '/').last(),
            r@.len() == head.len() + nonempty(split_char(s@.take(i as int), '/').drop_last()).len(),
            forall|k: int| 0 <= k < r@.len() ==> #[trigger] r@[k]@ == (head + nonempty(
                split_char(s@.take(i as int), '/').drop_last(),
            ))[k],
        decreases s.len() - i,
    {
        let ghost p = split_char(s@.take(i as int), '/');
        assert(s@.take(i + 1).drop_last() =~= s@.take(i as int));
        if s[i] == '/' {
            if piece.len() > 0 && !(piece.len() == 1 && piece[0] == '.') {
                let ghost before = head + nonempty(p.drop_last());
                r.push(piece);
                assert(p.push(Seq::empty()).drop_last() =~= p);
                assert(p =~= p.drop_last().push(p.last()));
                assert(!(p.last() =~= seq!['.']));
                assert(head + nonempty(p) =~= before.push(p.last()));
            } else {
                assert(p.push(Seq::empty()).drop_last() =~= p);
                assert(p =~= p.drop_last().push(p.last()));
                assert(p.last().len() == 0 || p.last() =~= seq!['.']);
                assert(nonempty(p) =~= nonempty(p.drop_last()));
            }
            piece = Vec::new();
        } else {
            piece.push(s[i]);
            assert(p.update(p.len() - 1, p.last().push(s@[i as int])).drop_last() =~= p.drop_last());
        }
        i += 1;
        proof {
            lemma_split_char_nonempty(s@.take(i as int), '/');
        }
    }
    assert(s@.take(s@.len() as int) =~= s@);
    let ghost p = split_char(s@, '/');
    if piece.len() > 0 && !(piece.len() == 1 && piece[0] == '.') {
        let ghost before = head + nonempty(p.drop_last());
        r.push(piece);
        assert(p =~= p.drop_last().push(p.last()));
        assert(!(p.last() =~= seq!['.']));
        assert(head + nonempty(p) =~= before.push(p.last()));
    } else {
        assert(p =~= p.drop_last().push(p.last()));
        assert(p.last().len() == 0 || p.last() =~= seq!['.']);
        assert(nonempty(p) =~= nonempty(p.drop_last()));
    }
    r
}

/// Whether the components of `subpath` occur, all of them and in order, in `path`.
pub fn contains_subpath(path: &str, subpath: &str) -> (b: bool)
    ensures
        b == spec_contains_subpath(components(path@), components(subpath@)),
{
    let main = components_exec(path);
    let sub = components_exec(subpath);
    let ghost m = components(path@);
    let ghost sb = components(subpath@);
    if sub.len() > main.len() || sub.len() == 0 {
        return false;
    }
    let mut i: usize = 0;
    while i < main.len()
        invariant
            m == components(path@),
            sb == components(subpath@),
            main@.len() == m.len(),
            sub@.len() == sb.len(),
            forall|k: int| 0 <= k < main@.len() ==> #[trigger] main@[k]@ == m[k],
            forall|k: int| 0 <= k < sub@.len() ==> #[trigger] sub@[k]@ == sb[k],
            0 < sb.len() <= m.len(),
            i <= m.len(),
            forall|x: int| 0 <= x < i ==> !#[trigger] run_matches(m, sb, x),
        decreases main.len() - i,
    {
        if sub.len() <= main.len() - i {
            let mut j: usize = 0;
            let mut ok = true;
            while j < sub.len() && ok
                invariant
                    main@.len() == m.len(),
                    sub@.len() == sb.len(),
                    forall|k: int| 0 <= k < main@.len() ==> #[trigger] main@[k]@ == m[k],
                    forall|k: int| 0 <= k < sub@.len() ==> #[trigger] sub@[k]@ == sb[k],
                    i + sb.len() <= m.len(),
                    m.len() <= usize::MAX,
                    j <= sb.len(),
                    ok ==> forall|jj: int| 0 <= jj < j ==> m[i + jj] == #[trigger] sb[jj],
                    !ok ==> j > 0 && m[i + j - 1] != sb[j - 1],
                decreases sub.len() - j,
            {
                if !chars_eq(&main[i + j], &sub[j]) {
                    ok = false;
                }
                j += 1;
            }
            if ok {
                assert(run_matches(m, sb, i as int));
                return true;
            }
            assert(!run_matches(m, sb, i as int));
        }
        i += 1;
    }
    false
}

// ---------------------------------------------------------------------------
// Genre mappings of the music folders
// ---------------------------------------------------------------------------

/// What is wrong with the genre mapping of a folder under the music root.
#[derive(Debug, Clone, Copy, PartialEq, Eq)]
pub enum GenreMappingWarning {
    /// The folder has no default genre.
    Missing,
    /// The folder's default genre is empty.
    Empty,
}

/// For a folder under the music root: a warning when it has no default genre, or an empty one.
pub open spec fn spec_genre_mapping_warning(root: Seq<char>, directory: Seq<char>) -> Option<
    GenreMappingWarning,
> {
    if spec_contains_subpath(components(root), components("Dropbox/DJ MUSIC"@)) {
        match lookup(genre_mappings(), directory) {
            None => Some(GenreMappingWarning::Missing),
            Some(g) => if g.len() == 0 {
                Some(GenreMappingWarning::Empty)
            } else {
                None
            },
        }
    } else {
        None
    }
}

/// Check the genre mapping of a track's folder.
pub fn genre_mapping_warning(root: &str, directory: &str) -> (w: Option<GenreMappingWarning>)
    ensures
        w == spec_genre_mapping_warning(root@, directory@),
{
    if !contains_subpath(root, "Dropbox/DJ MUSIC") {
        return None;
    }
    match genre_for_directory(directory) {
        None => Some(GenreMappingWarning::Missing),
        Some(g) => if to_chars(g.as_str()).len() == 0 {
            Some(GenreMappingWarning::Empty)
        } else {
            None
        },
    }
}

// ---------------------------------------------------------------------------
// Renaming
// ---------------------------------------------------------------------------

/// What to do with a track's file name.
#[derive(Debug, Clone, Copy, PartialEq, Eq)]
pub enum RenameDecision {
    /// The name is already right.
    Keep,
    /// Rename the file; `via_temp` when only letter case changes, so that case-insensitive
    /// file systems see the change.
    Rename { via_temp: bool },
    /// The name would change, but tags were just written and renaming was not asked for.
    Skip,
    /// Another file already has the new name.
    Duplicate,
}

/// The decision for a track whose new path differs from its path or not: a differing path
/// is renamed where no file has the new name or only case changes, provided renaming was
/// asked for or the tags were not rewritten; it is a duplicate where another file has the
/// name.
pub open spec fn spec_rename_decision(
    formatted: Seq<char>,
    original: Seq<char>,
    formatted_is_file: bool,
    rename_files: bool,
    tags_updated: bool,
) -> RenameDecision {
    if formatted == original {
        RenameDecision::Keep
    } else {
        let case_only = lowercase(formatted) == lowercase(original);
        if !formatted_is_file || case_only {
            if rename_files || !tags_updated {
                RenameDecision::Rename { via_temp: case_only }
            } else {
                RenameDecision::Skip
            }
        } else {
            RenameDecision::Duplicate
        }
    }
}

/// Decide how to rename a track, given its current and formatted path and whether a file
/// already exists at the formatted path.
pub fn rename_decision(
    formatted: &str,
    original: &str,
    formatted_is_file: bool,
    rename_files: bool,
    tags_updated: bool,
) -> (d: RenameDecision)
    ensures
        d == spec_rename_decision(formatted@, original@, formatted_is_file, rename_files, tags_updated),
{
    if str_eq(formatted, original) {
        return RenameDecision::Keep;
    }
    let lf = to_lowercase(formatted);
    let lo = to_lowercase(original);
    let case_only = str_eq(lf.as_str(), lo.as_str());
    if !formatted_is_file || case_only {
        if rename_files || !tags_updated {
            RenameDecision::Rename { via_temp: case_only }
        } else {
            RenameDecision::Skip
        }
    } else {
        RenameDecision::Duplicate
    }
}

/// `Path::with_extension`: the file name's extension replaced by `ext`, or added where it
/// has none.
pub open spec fn with_extension(path: Seq<char>, ext: Seq<char>) -> Seq<char> {
    match file_name(path) {
        None => path,
        Some(n) => {
            let t = trimmed(path);
            let stem_len = match dot_split(n) {
                Some(k) => k,
                None => n.len() as int,
            };
            t.take(t.len() - n.len() + stem_len) + "."@ + ext
        },
    }
}

/// `Path::with_extension` on a path string: the file name's extension replaced by `ext`, or
/// added where it has none.
pub fn path_with_extension(path: &str, ext: &str) -> (p: String)
    ensures
        p@ == with_extension(path@, ext@),
{
    let path = to_chars(path);
    let ext = to_chars(ext);
    match crate::paths::file_name_chars(&path) {
        None => from_chars(&path),
        Some(n) => {
            let t = crate::paths::trimmed_chars(&path);
            proof {
                crate::paths::lemma_rfind_char(n@, '.');
                assert(n@.len() <= t@.len()) by {
                    crate::paths::lemma_rfind_char(t@, '/');
                }
            }
            let stem_len = match crate::paths::rfind_char_exec(&n, '.') {
                Some(k) => if k == 0 {
                    n.len()
                } else {
                    k
                },
                None => n.len(),
            };
            let mut r = slice_copy(&t, 0, t.len() - n.len() + stem_len);
            assert(r@ =~= t@.take(t@.len() - n@.len() + stem_len));
            extend(&mut r, &to_chars("."));
            extend(&mut r, &ext);
            from_chars(&r)
        },
    }
}

/// The temporary path used for a rename that only changes letter case: the new path with
/// the extension `<format>.tmp`.
pub fn temp_rename_path(formatted_path: &str, format: FileFormat) -> (p: String)
    ensures
        p@ == with_extension(formatted_path@, format_text(format) + ".tmp"@),
{
    let mut ext = to_chars(format.to_string().as_str());
    extend(&mut ext, &to_chars(".tmp"));
    path_with_extension(formatted_path, from_chars(&ext).as_str())
}

/// The path of the AIFF file that a track's MP3 file is converted to.
pub fn aif_conversion_path(track: &Track) -> (p: String)
    ensures
        p@ == with_extension(track.path@, "aif"@),
{
    path_with_extension(track.path.as_str(), "aif")
}

// ---------------------------------------------------------------------------
// Counting
// ---------------------------------------------------------------------------

/// Statistics after one more track whose tags need fixing.
pub fn record_tags_to_fix(stats: &mut Statistics)
    requires
        old(stats).tags < usize::MAX,
    ensures
        *final(stats) == (Statistics { tags: (old(stats).tags + 1) as usize, ..*old(stats) }),
{
    stats.tags = stats.tags + 1;
}

/// Statistics after tags were written for a track whose tags had changed.
pub fn record_tags_fixed(stats: &mut Statistics)
    requires
        old(stats).tags_fixed < usize::MAX,
    ensures
        *final(stats) == (Statistics { tags_fixed: (old(stats).tags_fixed + 1) as usize, ..*old(stats) }),
{
    stats.tags_fixed = stats.tags_fixed + 1;
}

/// Statistics after one more file to rename.
pub fn record_to_rename(stats: &mut Statistics)
    requires
        old(stats).to_rename < usize::MAX,
    ensures
        *final(stats) == (Statistics { to_rename: (old(stats).to_rename + 1) as usize, ..*old(stats) }),
{
    stats.to_rename = stats.to_rename + 1;
}

/// Statistics after one more renamed file.
pub fn record_renamed(stats: &mut Statistics)
    requires
        old(stats).renamed < usize::MAX,
    ensures
        *final(stats) == (Statistics { renamed: (old(stats).renamed + 1) as usize, ..*old(stats) }),
{
    stats.renamed = stats.renamed + 1;
}

/// Statistics after one more duplicate.
pub fn record_duplicate(stats: &mut Statistics)
    requires
        old(stats).duplicates < usize::MAX,
    ensures
        *final(stats) == (Statistics { duplicates: (old(stats).duplicates + 1) as usize, ..*old(stats) }),
{
    stats.duplicates = stats.duplicates + 1;
}

/// Statistics after one more file whose tags could not be read.
pub fn record_failed(stats: &mut Statistics)
    requires
        old(stats).failed < usize::MAX,
    ensures
        *final(stats) == (Statistics { failed: (old(stats).failed + 1) as usize, ..*old(stats) }),
{
    stats.failed = stats.failed + 1;
}

/// Statistics after one more converted file.
pub fn record_converted(stats: &mut Statistics)
    requires
        old(stats).converted < usize::MAX,
    ensures
        *final(stats) == (Statistics { converted: (old(stats).converted + 1) as usize, ..*old(stats) }),
{
    stats.converted = stats.converted + 1;
}

/// Tags are written when they changed or when all tags are to be rewritten; they are written
/// without asking when forced, and never in print-only mode.
pub open spec fn spec_tag_write(changed: bool, write_all_tags: bool, print_only: bool) -> bool {
    (changed || write_all_tags) && !print_only
}

/// Whether a track's tags are to be written (after confirmation, unless forced).
pub fn tags_to_write(changed: bool, write_all_tags: bool, print_only: bool) -> (b: bool)
    ensures
        b == spec_tag_write(changed, write_all_tags, print_only),
{
    (changed || write_all_tags) && !print_only
}

/// A confirmation prompt is answered yes by anything but `n` or `N` (surrounding
/// whitespace ignored).
pub fn is_confirmation(answer: &str) -> (b: bool)
    ensures
        b == (lowercase(trim(answer@)) != "n"@),
{
    let t = from_chars(&trim_chars(&to_chars(answer)));
    let lower = to_lowercase(t.as_str());
    !str_eq(lower.as_str(), "n")
}

/// A track is skipped as unchanged when the stored metadata from an earlier run has the same
/// modification time and program version as the file now.
pub fn unchanged_since_last_run(stored: &Option<TrackMetadata>, current: &TrackMetadata) -> (b: bool)
    ensures
        b == (stored matches Some(m) && m.modified == current.modified && m.version@
            == current.version@),
{
    match stored {
        Some(m) => m.modified == current.modified && str_eq(m.version.as_str(), current.version.as_str()),
        None => false,
    }
}

// ---------------------------------------------------------------------------
// Processing one track
// ---------------------------------------------------------------------------

/// Why a track is left alone.
#[derive(Debug, Clone, Copy, PartialEq, Eq)]
pub enum SkipReason {
    /// The user's exclude list names it.
    Excluded,
    /// Its file no longer exists.
    Missing,
    /// Its file has not changed since the last run with this program version.
    Unchanged,
}

/// What the caller does next for a track.
#[derive(Debug, Clone, Copy, PartialEq, Eq)]
pub enum TrackAction {
    /// Leave the track; it is done.
    Skip(SkipReason),
    /// Read the file's tags and report them with `TagsRead`.
    ReadTags,
    /// Convert the MP3 file to AIFF and report the new track with `Converted`.
    ConvertToAif,
    /// The tags cannot be read: the track failed and is done.
    Fail,
    /// Ask whether to write the formatted tags and report the answer with `WriteTagsAnswered`.
    AskToWriteTags,
    /// Write the formatted tags and report with `TagsWritten`.
    WriteTags,
    /// Find the formatted path relative to the working directory and whether a file is there,
    /// and report with `RenameTargetChecked`.
    CheckRenameTarget,
    /// Show the rename that would be made; nothing is changed and the track is done.
    ShowRename,
    /// Show the rename, ask whether to make it and report with `RenameAnswered`.
    AskToRename { via_temp: bool },
    /// Rename the file to the formatted path, through a temporary name when `via_temp`, and
    /// report with `Renamed`.
    Rename { via_temp: bool },
    /// Another file already has the formatted name; report it. The track is done.
    ReportDuplicate,
    /// The track is done.
    Finish,
}

/// What happened after the last action.
#[derive(Debug, Clone)]
pub enum TrackEvent {
    /// Processing starts: whether the file exists, and what the state database holds for it
    /// (`None` when nothing, or when no state is kept).
    Started { exists: bool, stored: Option<TrackMetadata> },
    /// The tags were read, or could not be (`None`).
    TagsRead { tags: Option<FileTags> },
    /// The conversion gave the track for the new file, or failed (`None`).
    Converted { track: Option<Track> },
    /// The answer to the question whether to write the tags.
    WriteTagsAnswered { yes: bool },
    /// Whether writing the tags succeeded.
    TagsWritten { ok: bool },
    /// The formatted and the current path, relative to the working directory, and whether a
    /// file exists at the formatted path.
    RenameTargetChecked { formatted_relative: String, original_relative: String, formatted_is_file: bool },
    /// The answer to the question whether to rename.
    RenameAnswered { yes: bool, via_temp: bool },
    /// The file was renamed; the new file's metadata, or `None` where it was removed again
    /// (test mode).
    Renamed { metadata: Option<TrackMetadata> },
}

/// Actions that change files, or ask to: never taken in print-only mode.
pub open spec fn action_modifies_file(a: TrackAction) -> bool {
    a is ConvertToAif || a is AskToWriteTags || a is WriteTags || a is AskToRename || a is Rename
}

/// The exclude list names the track.
pub open spec fn track_excluded(t: TrackView, excluded: Seq<String>) -> bool {
    exists|i: int| 0 <= i < excluded.len() && names_track(t, #[trigger] excluded[i]@)
}

/// No counter that a step may raise is at its maximum.
pub open spec fn counters_have_room(s: Statistics) -> bool {
    s.tags < usize::MAX && s.tags_fixed < usize::MAX && s.to_rename < usize::MAX && s.renamed
        < usize::MAX && s.duplicates < usize::MAX && s.failed < usize::MAX && s.converted
        < usize::MAX
}

/// The formatted file name with the format's extension.
pub open spec fn formatted_file_name(t: TrackView) -> Seq<char> {
    spec_formatted_filename(t) + "."@ + format_text(t.format)
}

/// The path a track is renamed to: the formatted file name in the track's folder.
pub open spec fn formatted_path_of(t: TrackView) -> Seq<char> {
    join(t.root, formatted_file_name(t))
}

/// After the tags: on to renaming, unless only tags are fixed.
pub open spec fn after_tags(c: Config) -> TrackAction {
    if c.tags_only {
        TrackAction::Finish
    } else {
        TrackAction::CheckRenameTarget
    }
}

/// The track with its tags formatted from the file's tags.
#[verifier::opaque]
pub open spec fn with_formatted_tags(t: TrackView, ft: FileTags) -> TrackView {
    TrackView {
        tags: spec_formatted_tags(
            t,
            spec_parse_tag_data(
                t.name,
                opt_view(ft.artist),
                opt_view(ft.title),
                opt_view(ft.album),
                opt_view(ft.genre),
            ),
        ),
        ..t
    }
}

/// One step for one track: given the settings, the counts so far, the track and what
/// happened, the new counts, the track after the step and what to do next.
///
/// An excluded track is skipped whatever happened. Otherwise: a missing file is skipped, and
/// so is one unchanged since the last run when state is kept; the tags are read; tags that
/// cannot be read are converted (an MP3 file, when asked for) or count as failed; the
/// formatted tags are written when they changed or all tags are rewritten, after asking
/// unless forced; the file is renamed as `rename_decision` decides, after asking unless
/// forced; another file with the new name is a duplicate. In print-only mode nothing is
/// written, converted or renamed.
pub open spec fn spec_track_step(c: Config, s: Statistics, t: TrackView, e: TrackEvent) -> (
    Statistics,
    TrackView,
    TrackAction,
) {
    if track_excluded(t, c.excluded_tracks@) {
        (s, t, TrackAction::Skip(SkipReason::Excluded))
    } else {
        match e {
            TrackEvent::Started { exists, stored } => if !exists {
                (s, t, TrackAction::Skip(SkipReason::Missing))
            } else if !c.no_state && (stored matches Some(m) && m.modified == t.modified
                && m.version@ == t.version) {
                (s, t, TrackAction::Skip(SkipReason::Unchanged))
            } else {
                (s, t, TrackAction::ReadTags)
            },
            TrackEvent::TagsRead { tags } => match tags {
                None => if c.convert_failed && t.format == FileFormat::Mp3 && !c.print_only {
                    (s, t, TrackAction::ConvertToAif)
                } else {
                    (Statistics { failed: (s.failed + 1) as usize, ..s }, t, TrackAction::Fail)
                },
                Some(ft) => {
                    let t2 = with_formatted_tags(t, ft);
                    let changed = tags_changed(t2.tags);
                    let s2 = if changed {
                        Statistics { tags: (s.tags + 1) as usize, ..s }
                    } else {
                        s
                    };
                    if (changed || c.write_all_tags) && !c.print_only {
                        (s2, t2, if c.force {
                            TrackAction::WriteTags
                        } else {
                            TrackAction::AskToWriteTags
                        })
                    } else {
                        (s2, t2, after_tags(c))
                    }
                },
            },
            TrackEvent::Converted { track } => match track {
                Some(n) => (
                    Statistics { converted: (s.converted + 1) as usize, ..s },
                    n@,
                    TrackAction::ReadTags,
                ),
                None => (Statistics { failed: (s.failed + 1) as usize, ..s }, t, TrackAction::Fail),
            },
            TrackEvent::WriteTagsAnswered { yes } => if yes && !c.print_only {
                (s, t, TrackAction::WriteTags)
            } else {
                (s, t, after_tags(c))
            },
            TrackEvent::TagsWritten { ok } => if ok && tags_changed(t.tags) {
                (
                    Statistics { tags_fixed: (s.tags_fixed + 1) as usize, ..s },
                    TrackView { tags_updated: true, ..t },
                    after_tags(c),
                )
            } else {
                (s, t, after_tags(c))
            },
            TrackEvent::RenameTargetChecked {
                formatted_relative,
                original_relative,
                formatted_is_file,
            } => match spec_rename_decision(
                formatted_relative@,
                original_relative@,
                formatted_is_file,
                c.rename_files,
                t.tags_updated,
            ) {
                RenameDecision::Rename { via_temp } => (
                    Statistics { to_rename: (s.to_rename + 1) as usize, ..s },
                    t,
                    if c.print_only {
                        TrackAction::ShowRename
                    } else if c.force {
                        TrackAction::Rename { via_temp }
                    } else {
                        TrackAction::AskToRename { via_temp }
                    },
                ),
                RenameDecision::Duplicate => if formatted_path_of(t) != t.path {
                    (
                        Statistics { duplicates: (s.duplicates + 1) as usize, ..s },
                        t,
                        TrackAction::ReportDuplicate,
                    )
                } else {
                    (s, t, TrackAction::Finish)
                },
                _ => (s, t, TrackAction::Finish),
            },
            TrackEvent::RenameAnswered { yes, via_temp } => if yes && !c.print_only {
                (s, t, TrackAction::Rename { via_temp })
            } else {
                (s, t, TrackAction::Finish)
            },
            TrackEvent::Renamed { metadata } => (
                Statistics { renamed: (s.renamed + 1) as usize, ..s },
                match metadata {
                    Some(m) => TrackView {
                        name: spec_formatted_filename(t),
                        extension: format_text(t.format),
                        path: formatted_path_of(t),
                        modified: m.modified,
                        version: m.version@,
                        ..t
                    },
                    None => t,
                },
                TrackAction::Finish,
            ),
        }
    }
}

/// The path a track is renamed to.
pub fn formatted_path(track: &Track) -> (p: String)
    ensures
        p@ == formatted_path_of(track@),
{
    track.path_with_new_name(track.formatted_filename_with_extension().as_str())
}

/// One step of processing a track; see `spec_track_step`. The caller performs the action it
/// returns and reports what happened as the next event, until a final action (a skip, a
/// failure, a rename shown or reported as duplicate, or finish).
pub fn track_step(config: &Config, stats: &Statistics, track: &mut Track, event: TrackEvent) -> (r: (
    Statistics,
    TrackAction,
))
    requires
        counters_have_room(*stats),
    ensures
        (r.0, final(track)@, r.1) == spec_track_step(*config, *stats, old(track)@, event),
        config.print_only ==> !action_modifies_file(r.1),
        spec_is_excluded(*old(track), config.excluded_tracks@) ==> r.1 == TrackAction::Skip(
            SkipReason::Excluded,
        ) && r.0 == *stats && final(track)@ == old(track)@,
{
    proof {
        reveal(with_formatted_tags);
    }
    let mut s = *stats;
    if is_excluded(&*track, &config.excluded_tracks) {
        return (s, TrackAction::Skip(SkipReason::Excluded));
    }
    let next = if config.tags_only {
        TrackAction::Finish
    } else {
        TrackAction::CheckRenameTarget
    };
    match event {
        TrackEvent::Started { exists, stored } => {
            if !exists {
                (s, TrackAction::Skip(SkipReason::Missing))
            } else if !config.no_state && unchanged_since_last_run(&stored, &track.metadata) {
                (s, TrackAction::Skip(SkipReason::Unchanged))
            } else {
                (s, TrackAction::ReadTags)
            }
        },
        TrackEvent::TagsRead { tags } => match tags {
            None => {
                let is_mp3 = match track.format {
                    FileFormat::Mp3 => true,
                    FileFormat::Aif => false,
                };
                if config.convert_failed && is_mp3 && !config.print_only {
                    (s, TrackAction::ConvertToAif)
                } else {
                    s.failed = s.failed + 1;
                    (s, TrackAction::Fail)
                }
            },
            Some(ft) => {
                track.format_tags(&ft);
                let changed = track.tags.changed();
                if changed {
                    s.tags = s.tags + 1;
                }
                if (changed || config.write_all_tags) && !config.print_only {
                    if config.force {
                        (s, TrackAction::WriteTags)
                    } else {
                        (s, TrackAction::AskToWriteTags)
                    }
                } else {
                    (s, next)
                }
            },
        },
        TrackEvent::Converted { track: converted } => match converted {
            Some(n) => {
                *track = n;
                s.converted = s.converted + 1;
                (s, TrackAction::ReadTags)
            },
            None => {
                s.failed = s.failed + 1;
                (s, TrackAction::Fail)
            },
        },
        TrackEvent::WriteTagsAnswered { yes } => {
            if yes && !config.print_only {
                (s, TrackAction::WriteTags)
            } else {
                (s, next)
            }
        },
        TrackEvent::TagsWritten { ok } => {
            if ok && track.tags.changed() {
                track.tags_updated = true;
                s.tags_fixed = s.tags_fixed + 1;
            }
            (s, next)
        },
        TrackEvent::RenameTargetChecked { formatted_relative, original_relative, formatted_is_file } => {
            match rename_decision(
                formatted_relative.as_str(),
                original_relative.as_str(),
                formatted_is_file,
                config.rename_files,
                track.tags_updated,
            ) {
                RenameDecision::Rename { via_temp } => {
                    s.to_rename = s.to_rename + 1;
                    if config.print_only {
                        (s, TrackAction::ShowRename)
                    } else if config.force {
                        (s, TrackAction::Rename { via_temp })
                    } else {
                        (s, TrackAction::AskToRename { via_temp })
                    }
                },
                RenameDecision::Duplicate => {
                    let p = formatted_path(&*track);
                    if !str_eq(p.as_str(), track.path.as_str()) {
                        s.duplicates = s.duplicates + 1;
                        (s, TrackAction::ReportDuplicate)
                    } else {
                        (s, TrackAction::Finish)
                    }
                },
                _ => (s, TrackAction::Finish),
            }
        },
        TrackEvent::RenameAnswered { yes, via_temp } => {
            if yes && !config.print_only {
                (s, TrackAction::Rename { via_temp })
            } else {
                (s, TrackAction::Finish)
            }
        },
        TrackEvent::Renamed { metadata } => {
            s.renamed = s.renamed + 1;
            match metadata {
                Some(m) => {
                    let p = formatted_path(&*track);
                    let name = track.formatted_filename();
                    *track = track.renamed_track(p, name, m);
                },
                None => {},
            }
            (s, TrackAction::Finish)
        },
    }
}



/// Tags are written only when forced or after a yes to the question, and never in
/// print-only mode: a step whose next action writes the tags either follows a yes answer or
/// runs forced, without print-only mode.
pub proof fn law_tags_written_only_when_agreed(c: Config, s: Statistics, t: TrackView, e: TrackEvent)
    ensures
        spec_track_step(c, s, t, e).2 == TrackAction::WriteTags ==> !c.print_only && (c.force
            || e == (TrackEvent::WriteTagsAnswered { yes: true })),
{
}

/// After a no to the question whether to write the tags, they are not written: the
/// statistics and the track stay as they are and processing goes on as after the tags
/// (to the rename check, or to the end in tags-only mode).
pub proof fn law_declined_tags_not_written(c: Config, s: Statistics, t: TrackView)
    ensures
        spec_track_step(c, s, t, TrackEvent::WriteTagsAnswered { yes: false }).2
            != TrackAction::WriteTags,
        !track_excluded(t, c.excluded_tracks@) ==> spec_track_step(
            c,
            s,
            t,
            TrackEvent::WriteTagsAnswered { yes: false },
        ) == (s, t, after_tags(c)),
{
}

/// A file is renamed only when forced or after a yes to the question, and never in
/// print-only mode. After a no, the track is done.
pub proof fn law_renamed_only_when_agreed(c: Config, s: Statistics, t: TrackView, e: TrackEvent)
    ensures
        spec_track_step(c, s, t, e).2 is Rename ==> !c.print_only && (c.force || (e matches TrackEvent::RenameAnswered { yes, .. } && yes)),
        !track_excluded(t, c.excluded_tracks@) ==> spec_track_step(
            c,
            s,
            t,
            TrackEvent::RenameAnswered { yes: false, via_temp: false },
        ).2 == TrackAction::Finish,
{
}

} // verus!

//! One audio file: its name, place, format, metadata and tags.
use vstd::prelude::*;

use crate::file_format::{format_text, spec_format_from_str, FileFormat, UnsupportedFormat};
use crate::formatting::{
    ascii_fold, format_album, format_filename, format_tags_for_artist_and_title,
    spec_filename_field, spec_format_album, spec_format_tags,
};
use crate::genre::{format_genre, genre_for_directory, genre_mappings, lookup, spec_format_genre};
use crate::paths::{
    ends_with_components, extension, extension_chars, file_name, file_name_chars, file_stem,
    file_stem_chars, join, join_chars, parent, parent_chars,
};
use crate::tags::{spec_parse_tag_data, opt_view, FileTags, TrackTags, TrackTagsView};
use crate::text::{
    chars_eq, concat, from_chars, replace, replace_all, str_eq, to_chars, trim, trim_chars,
    trim_end_char_chars,
};
use crate::unicode::{lowercase, nfc, to_lowercase};
use crate::utils::normalize_str;
use vstd::std_specs::cmp::PartialEqSpecImpl;

verus! {

/// File metadata of a track.
#[derive(Debug, Clone, PartialEq, Eq, PartialOrd, Ord)]
pub struct TrackMetadata {
    /// Last modified timestamp provided by the OS.
    pub modified: u64,
    /// The library version this file was last processed with.
    pub version: String,
}

impl Default for TrackMetadata {
    fn default() -> (m: Self)
        ensures
            m.modified == 0 && m.version@ == Seq::<char>::empty(),
    {
        let version = String::new();
        assert(version@ =~= Seq::<char>::empty());
        TrackMetadata { modified: 0, version }
    }
}

/// Why no track could be made from a path.
#[derive(Debug, Clone, PartialEq, Eq)]
pub enum TrackError {
    /// The file name has no extension.
    NoExtension,
    /// The extension names no supported format.
    Unsupported(UnsupportedFormat),
    /// The path has no file name.
    NoFileStem,
    /// The path has no parent directory.
    NoParent,
    /// The parent directory has no name.
    NoDirectory,
}

/// Represents one audio file. Tracks are equal when their names are; they are ordered by
/// name first.
#[derive(Debug, Clone, PartialOrd, Ord)]
pub struct Track {
    /// Filename of the existing file without the file extension.
    pub name: String,
    /// File extension string for the existing file.
    pub extension: String,
    /// Parent directory name.
    pub directory: String,
    /// File format.
    pub format: FileFormat,
    /// Path to the parent directory.
    pub root: String,
    /// Full path of the existing file.
    pub path: String,
    /// File metadata.
    pub metadata: TrackMetadata,
    /// The index of this track.
    pub number: usize,
    /// Tag data.
    pub tags: TrackTags,
    /// True if updated tag data has been saved to file.
    pub tags_updated: bool,
    /// If the track needs to be updated but is not, then skip saving state.
    pub not_processed: bool,
    /// True if track info has been displayed in the terminal.
    pub printed: bool,
}

/// A track as plain values.
pub struct TrackView {
    pub name: Seq<char>,
    pub extension: Seq<char>,
    pub directory: Seq<char>,
    pub format: FileFormat,
    pub root: Seq<char>,
    pub path: Seq<char>,
    pub modified: u64,
    pub version: Seq<char>,
    pub number: usize,
    pub tags: TrackTagsView,
    pub tags_updated: bool,
    pub not_processed: bool,
    pub printed: bool,
}

impl View for Track {
    type V = TrackView;

    open spec fn view(&self) -> TrackView {
        TrackView {
            name: self.name@,
            extension: self.extension@,
            directory: self.directory@,
            format: self.format,
            root: self.root@,
            path: self.path@,
            modified: self.metadata.modified,
            version: self.metadata.version@,
            number: self.number,
            tags: self.tags@,
            tags_updated: self.tags_updated,
            not_processed: self.not_processed,
            printed: self.printed,
        }
    }
}

/// The file stem of a path, in Unicode Normalization Form C.
pub open spec fn spec_nfc_filename(path: Seq<char>) -> Option<Seq<char>> {
    match file_stem(path) {
        Some(s) => Some(nfc(s)),
        None => None,
    }
}

/// The name of a directory path, without replacement characters.
pub open spec fn spec_directory_name(root: Seq<char>) -> Option<Seq<char>> {
    match file_name(root) {
        Some(n) => Some(replace(n, "\u{FFFD}"@, ""@)),
        None => None,
    }
}

/// A new track at `path`: its name in NFC, the parent directory and its name, and the path
/// rebuilt from them. Metadata, number and tags start out empty.
pub open spec fn spec_new_with_extension(
    path: Seq<char>,
    ext: Seq<char>,
    format: FileFormat,
) -> Result<TrackView, TrackError> {
    match spec_nfc_filename(path) {
        None => Err(TrackError::NoFileStem),
        Some(name) => match parent(path) {
            None => Err(TrackError::NoParent),
            Some(root) => match spec_directory_name(root) {
                None => Err(TrackError::NoDirectory),
                Some(directory) => Ok(
                    TrackView {
                        name,
                        extension: ext,
                        directory,
                        format,
                        root,
                        path: join(root, name + "."@ + ext),
                        modified: 0,
                        version: Seq::empty(),
                        number: 0,
                        tags: crate::tags::tags_with_current(
                            Seq::empty(),
                            Seq::empty(),
                            Seq::empty(),
                            Seq::empty(),
                            Seq::empty(),
                        ),
                        tags_updated: false,
                        not_processed: false,
                        printed: false,
                    },
                ),
            },
        },
    }
}

/// A new track from a path whose extension names a supported format.
pub open spec fn spec_new_track(path: Seq<char>) -> Result<TrackView, TrackError> {
    match extension(path) {
        None => Err(TrackError::NoExtension),
        Some(ext) => match spec_format_from_str(ext) {
            None => Err(TrackError::Unsupported(UnsupportedFormat { extension: arbitrary() })),
            Some(f) => spec_new_with_extension(path, ext, f),
        },
    }
}

/// The extension of a path with surrounding whitespace trimmed, when one is left.
pub open spec fn spec_candidate_extension(path: Seq<char>) -> Option<Seq<char>> {
    match extension(path) {
        Some(e) => if trim(e).len() > 0 {
            Some(trim(e))
        } else {
            None
        },
        None => None,
    }
}

/// The track at `path`, when its trimmed extension names a supported format and a track can
/// be made from it.
pub open spec fn spec_try_from_path(path: Seq<char>) -> Option<TrackView> {
    match spec_candidate_extension(path) {
        None => None,
        Some(ext) => match spec_format_from_str(ext) {
            None => None,
            Some(f) => match spec_new_with_extension(path, ext, f) {
                Ok(v) => Some(v),
                Err(_) => None,
            },
        },
    }
}

/// Audio formats that are not supported but can be converted to one that is.
pub open spec fn is_convertible_extension(lower: Seq<char>) -> bool {
    lower == "wav"@ || lower == "m4a"@
}

/// The outcome of making a track matches the expected one; an unsupported format carries
/// the extension.
pub open spec fn track_result_matches(
    r: Result<Track, TrackError>,
    expected: Result<TrackView, TrackError>,
    ext: Option<Seq<char>>,
) -> bool {
    match expected {
        Ok(v) => r matches Ok(t) && t@ == v,
        Err(TrackError::Unsupported(_)) => r matches Err(TrackError::Unsupported(u)) && Some(
            u.extension@,
        ) == ext,
        Err(e) => r == Err::<Track, TrackError>(e),
    }
}

/// The full file name: name, `.` and extension.
pub open spec fn spec_filename(t: TrackView) -> Seq<char> {
    t.name + "."@ + t.extension
}

/// `s` starts with `prefix`, which is lower-case ASCII, in any case.
pub open spec fn starts_with_ci(s: Seq<char>, prefix: Seq<char>) -> bool {
    prefix.len() <= s.len() && forall|i: int|
        0 <= i < prefix.len() ==> ascii_fold(#[trigger] s[i]) == ascii_fold(prefix[i])
}

/// The folder for which a missing genre comes from the folder's name.
pub open spec fn dj_music_path() -> Seq<char> {
    "Dropbox/DJ MUSIC"@
}

/// The formatted album, or a default for download-pool folders.
pub open spec fn spec_album_for(album: Seq<char>, directory: Seq<char>) -> Seq<char> {
    let a1 = if album.len() == 0 && starts_with_ci(directory, "djcity"@) {
        "DJCity.com"@
    } else {
        album
    };
    if a1.len() == 0 && starts_with_ci(directory, "trayze"@) {
        "djtrayze.com"@
    } else {
        a1
    }
}

/// The formatted genre, or the folder's default genre where it is empty and the folder is
/// the music root or has a default.
pub open spec fn spec_genre_for(genre: Seq<char>, root: Seq<char>, directory: Seq<char>) -> Seq<
    char,
> {
    if genre.len() == 0 && (ends_with_components(root, dj_music_path()) || lookup(
        genre_mappings(),
        directory,
    ) is Some) {
        match lookup(genre_mappings(), directory) {
            Some(g) => g,
            None => Seq::empty(),
        }
    } else {
        genre
    }
}

/// The tags after formatting: parsed from the file's tags, with artist and title, album and
/// genre formatted.
pub open spec fn spec_formatted_tags(t: TrackView, tags: TrackTagsView) -> TrackTagsView {
    let (fa, ft) = spec_format_tags(tags.current_artist, tags.current_title);
    TrackTagsView {
        formatted_name: fa + " - "@ + ft,
        formatted_artist: fa,
        formatted_title: ft,
        formatted_album: spec_album_for(spec_format_album(tags.current_album), t.directory),
        formatted_genre: spec_genre_for(spec_format_genre(tags.current_genre), t.root, t.directory),
        ..tags
    }
}

/// The formatted file name without extension: `artist - title`, or whichever is not empty.
pub open spec fn spec_formatted_filename(t: TrackView) -> Seq<char> {
    let a = spec_filename_field(t.tags.formatted_artist);
    let b = spec_filename_field(t.tags.formatted_title);
    if a.len() == 0 && b.len() == 0 {
        Seq::empty()
    } else if a.len() == 0 {
        b
    } else if b.len() == 0 {
        a
    } else {
        a + " - "@ + b
    }
}

fn starts_with_ci_exec(s: &[char], prefix: &str) -> (b: bool)
    ensures
        b == starts_with_ci(s@, prefix@),
{
    let p = to_chars(prefix);
    if p.len() > s.len() {
        return false;
    }
    let mut i: usize = 0;
    while i < p.len()
        invariant
            i <= p@.len(),
            p@.len() <= s@.len(),
            p@ == prefix@,
            forall|k: int| 0 <= k < i ==> ascii_fold(#[trigger] s@[k]) == ascii_fold(p@[k]),
        decreases p.len() - i,
    {
        let x = s[i];
        let y = p[i];
        let fx: u32 = if 'A' <= x && x <= 'Z' { (x as u32) + 32 } else { x as u32 };
        let fy: u32 = if 'A' <= y && y <= 'Z' { (y as u32) + 32 } else { y as u32 };
        if fx != fy {
            assert(ascii_fold(s@[i as int]) != ascii_fold(p@[i as int]));
            return false;
        }
        i += 1;
    }
    true
}

fn ends_with_components_exec(path: &[char], tail: &str) -> (b: bool)
    ensures
        b == ends_with_components(path@, tail@),
{
    let t = crate::paths::trimmed_chars(path);
    let tc = to_chars(tail);
    if chars_eq(&t, &tc) {
        return true;
    }
    if t.len() <= tc.len() {
        return false;
    }
    let start = t.len() - tc.len();
    let end_part = crate::text::slice_copy(&t, start, t.len());
    chars_eq(&end_part, &tc) && t[start - 1] == '/'
}

impl Track {
    /// The file stem of a path, in Unicode Normalization Form C.
    pub fn get_nfc_filename_from_path(path: &str) -> (r: Result<String, TrackError>)
        ensures
            match spec_nfc_filename(path@) {
                Some(n) => r matches Ok(s) && s@ == n,
                None => r == Err::<String, TrackError>(TrackError::NoFileStem),
            },
    {
        match file_stem_chars(&to_chars(path)) {
            Some(stem) => Ok(normalize_str(from_chars(&stem).as_str())),
            None => Err(TrackError::NoFileStem),
        }
    }

    /// A new track from a path, with the extension and format already known.
    pub fn new_with_extension(path: &str, extension: String, format: FileFormat) -> (r: Result<
        Track,
        TrackError,
    >)
        ensures
            track_result_matches(r, spec_new_with_extension(path@, extension@, format), None),
    {
        let name = match Track::get_nfc_filename_from_path(path) {
            Ok(n) => n,
            Err(e) => return Err(e),
        };
        let root = match parent_chars(&to_chars(path)) {
            Some(r) => r,
            None => return Err(TrackError::NoParent),
        };
        let directory = match file_name_chars(&root) {
            Some(d) => from_chars(&replace_all(&d, &to_chars("\u{FFFD}"), &to_chars(""))),
            None => return Err(TrackError::NoDirectory),
        };
        let file = concat(&concat(&to_chars(name.as_str()), &to_chars(".")), &to_chars(extension.as_str()));
        let full = from_chars(&join_chars(&root, &file));
        Ok(Track {
            name,
            extension,
            directory,
            format,
            root: from_chars(&root),
            path: full,
            metadata: TrackMetadata::default(),
            number: 0,
            tags: TrackTags::default(),
            tags_updated: false,
            not_processed: false,
            printed: false,
        })
    }

    /// A new track from a path; the extension decides the format. The metadata is left
    /// empty: reading it from the file is up to the caller.
    pub fn new(path: &str) -> (r: Result<Track, TrackError>)
        ensures
            track_result_matches(r, spec_new_track(path@), extension(path@)),
    {
        let ext = match extension_chars(&to_chars(path)) {
            Some(e) => from_chars(&e),
            None => return Err(TrackError::NoExtension),
        };
        match FileFormat::from_str(ext.as_str()) {
            Ok(format) => Track::new_with_extension(path, ext, format),
            Err(u) => Err(TrackError::Unsupported(u)),
        }
    }

    /// The track at `path`, or `None` where the path has no extension, its format is not
    /// supported, or it has no name or parent directory.
    pub fn try_from_path(path: &str) -> (r: Option<Track>)
        ensures
            match spec_try_from_path(path@) {
                Some(v) => r matches Some(t) && t@ == v,
                None => r is None,
            },
    {
        let ext = match extension_chars(&to_chars(path)) {
            Some(e) => trim_chars(&e),
            None => return None,
        };
        if ext.len() == 0 {
            return None;
        }
        let ext = from_chars(&ext);
        match FileFormat::from_str(ext.as_str()) {
            Ok(format) => match Track::new_with_extension(path, ext, format) {
                Ok(t) => Some(t),
                Err(_) => None,
            },
            Err(_) => None,
        }
    }

    /// Whether `path` is an audio file of a format that is not supported but could be
    /// converted to one that is.
    pub fn should_convert(path: &str) -> (b: bool)
        ensures
            b == (spec_candidate_extension(path@) matches Some(e) && spec_format_from_str(e) is None
                && is_convertible_extension(lowercase(e))),
    {
        let ext = match extension_chars(&to_chars(path)) {
            Some(e) => trim_chars(&e),
            None => return false,
        };
        if ext.len() == 0 {
            return false;
        }
        let ext = from_chars(&ext);
        match FileFormat::from_str(ext.as_str()) {
            Ok(_) => false,
            Err(_) => {
                let lower = to_lowercase(ext.as_str());
                str_eq(lower.as_str(), "wav") || str_eq(lower.as_str(), "m4a")
            },
        }
    }

    /// The original file name including the file extension.
    pub fn filename(&self) -> (s: String)
        ensures
            s@ == spec_filename(self@),
    {
        from_chars(
            &concat(&concat(&to_chars(self.name.as_str()), &to_chars(".")), &to_chars(self.extension.as_str())),
        )
    }

    /// Whether `other` is the full file name: name, `.` and extension.
    pub fn matches_filename(&self, other: &str) -> (b: bool)
        ensures
            b == (other@ == spec_filename(self@)),
    {
        let f = self.filename();
        str_eq(other, f.as_str())
    }

    /// Parse the file's tags and format them.
    pub fn format_tags(&mut self, file_tags: &FileTags)
        ensures
            final(self)@ == (TrackView {
                tags: spec_formatted_tags(
                    old(self)@,
                    spec_parse_tag_data(
                        old(self).name@,
                        opt_view(file_tags.artist),
                        opt_view(file_tags.title),
                        opt_view(file_tags.album),
                        opt_view(file_tags.genre),
                    ),
                ),
                ..old(self)@
            }),
    {
        let mut tags = TrackTags::parse_tag_data(self, file_tags);
        let (formatted_artist, formatted_title) = format_tags_for_artist_and_title(
            tags.current_artist.as_str(),
            tags.current_title.as_str(),
        );
        let mut formatted_album = format_album(tags.current_album.as_str());
        let mut formatted_genre = format_genre(tags.current_genre.as_str());
        let dir = to_chars(self.directory.as_str());
        if to_chars(formatted_album.as_str()).len() == 0 && starts_with_ci_exec(&dir, "djcity") {
            formatted_album = String::from_str("DJCity.com");
        }
        if to_chars(formatted_album.as_str()).len() == 0 && starts_with_ci_exec(&dir, "trayze") {
            formatted_album = String::from_str("djtrayze.com");
        }
        if to_chars(formatted_genre.as_str()).len() == 0 {
            let default_genre = genre_for_directory(self.directory.as_str());
            if ends_with_components_exec(&to_chars(self.root.as_str()), "Dropbox/DJ MUSIC")
                || default_genre.is_some() {
                formatted_genre = match default_genre {
                    Some(g) => g,
                    None => {
                        let e = String::new();
                        assert(e@ =~= Seq::<char>::empty());
                        e
                    },
                };
            }
        }
        tags.formatted_name = from_chars(
            &concat(
                &concat(&to_chars(formatted_artist.as_str()), &to_chars(" - ")),
                &to_chars(formatted_title.as_str()),
            ),
        );
        tags.formatted_artist = formatted_artist;
        tags.formatted_title = formatted_title;
        tags.formatted_album = formatted_album;
        tags.formatted_genre = formatted_genre;
        self.tags = tags;
    }

    /// The formatted file name without the file extension.
    pub fn formatted_filename(&self) -> (s: String)
        ensures
            s@ == spec_formatted_filename(self@),
    {
        let (file_artist, file_title) = format_filename(
            self.tags.formatted_artist.as_str(),
            self.tags.formatted_title.as_str(),
        );
        let a = to_chars(file_artist.as_str());
        let b = to_chars(file_title.as_str());
        if a.len() == 0 && b.len() == 0 {
            let e = String::new();
            assert(e@ =~= Seq::<char>::empty());
            e
        } else if a.len() == 0 {
            file_title
        } else if b.len() == 0 {
            file_artist
        } else {
            from_chars(&concat(&concat(&a, &to_chars(" - ")), &b))
        }
    }

    /// The formatted file name with the format's extension.
    pub fn formatted_filename_with_extension(&self) -> (s: String)
        ensures
            s@ == spec_formatted_filename(self@) + "."@ + format_text(self.format),
    {
        let name = self.formatted_filename();
        let ext = self.format.to_string();
        from_chars(
            &concat(&concat(&to_chars(name.as_str()), &to_chars(".")), &to_chars(ext.as_str())),
        )
    }

    /// The full path with a new file name in the same directory.
    pub fn path_with_new_name(&self, filename: &str) -> (p: String)
        ensures
            p@ == join(self.root@, filename@),
    {
        from_chars(&join_chars(&to_chars(self.root.as_str()), &to_chars(filename)))
    }

    /// The track after renaming: the new path and name, the format's extension and the new
    /// file's metadata; everything else carries over.
    pub fn renamed_track(&self, path: String, name: String, metadata: TrackMetadata) -> (t: Track)
        ensures
            t@ == (TrackView {
                name: name@,
                extension: format_text(self.format),
                path: path@,
                modified: metadata.modified,
                version: metadata.version@,
                ..self@
            }),
    {
        Track {
            name,
            extension: self.format.to_string(),
            directory: self.directory.clone(),
            format: self.format,
            root: self.root.clone(),
            path,
            metadata,
            number: self.number,
            tags: self.tags.duplicate(),
            tags_updated: self.tags_updated,
            not_processed: self.not_processed,
            printed: self.printed,
        }
    }
}

impl Track {
    /// The track for the AIFF file that this track's MP3 file was converted to: same name,
    /// folder, number and flags, the `aif` extension and format, the new path and metadata,
    /// and tags not read yet.
    pub fn converted_to_aif(&self, path: String, metadata: TrackMetadata) -> (t: Track)
        ensures
            t@ == (TrackView {
                extension: "aif"@,
                format: FileFormat::Aif,
                path: path@,
                modified: metadata.modified,
                version: metadata.version@,
                tags: crate::tags::tags_with_current(
                    Seq::empty(),
                    Seq::empty(),
                    Seq::empty(),
                    Seq::empty(),
                    Seq::empty(),
                ),
                ..self@
            }),
    {
        let extension = String::from_str("aif");
        proof {
            reveal_strlit("aif");
        }
        Track {
            name: self.name.clone(),
            extension,
            directory: self.directory.clone(),
            format: FileFormat::Aif,
            root: self.root.clone(),
            path,
            metadata,
            number: self.number,
            tags: TrackTags::default(),
            tags_updated: self.tags_updated,
            not_processed: self.not_processed,
            printed: self.printed,
        }
    }
}

impl PartialEq for Track {
    fn eq(&self, other: &Self) -> (r: bool) {
        str_eq(self.name.as_str(), other.name.as_str())
    }
}

impl PartialEqSpecImpl for Track {
    open spec fn obeys_eq_spec() -> bool {
        true
    }

    open spec fn eq_spec(&self, other: &Track) -> bool {
        self.name@ == other.name@
    }
}

impl Eq for Track {}

/// A track equals a text that is its name or its full file name.
pub open spec fn names_track(t: TrackView, s: Seq<char>) -> bool {
    s == t.name || s == spec_filename(t)
}

impl PartialEq<String> for Track {
    fn eq(&self, other: &String) -> (r: bool) {
        str_eq(self.name.as_str(), other.as_str()) || self.matches_filename(other.as_str())
    }
}

impl PartialEqSpecImpl<String> for Track {
    open spec fn obeys_eq_spec() -> bool {
        true
    }

    open spec fn eq_spec(&self, other: &String) -> bool {
        names_track(self@, other@)
    }
}

impl<'a> PartialEq<&'a str> for Track {
    fn eq(&self, other: &&'a str) -> (r: bool) {
        str_eq(self.name.as_str(), *other) || self.matches_filename(*other)
    }
}

impl<'a> PartialEqSpecImpl<&'a str> for Track {
    open spec fn obeys_eq_spec() -> bool {
        true
    }

    open spec fn eq_spec(&self, other: &&'a str) -> bool {
        names_track(self@, (*other)@)
    }
}

impl PartialEq<Track> for String {
    fn eq(&self, other: &Track) -> (r: bool) {
        str_eq(other.name.as_str(), self.as_str()) || other.matches_filename(self.as_str())
    }
}

impl PartialEqSpecImpl<Track> for String {
    open spec fn obeys_eq_spec() -> bool {
        true
    }

    open spec fn eq_spec(&self, other: &Track) -> bool {
        names_track(other@, self@)
    }
}

impl<'a> PartialEq<Track> for &'a str {
    fn eq(&self, other: &Track) -> (r: bool) {
        str_eq(other.name.as_str(), *self) || other.matches_filename(*self)
    }
}

impl<'a> PartialEqSpecImpl<Track> for &'a str {
    open spec fn obeys_eq_spec() -> bool {
        true
    }

    open spec fn eq_spec(&self, other: &Track) -> bool {
        names_track(other@, (*self)@)
    }
}

} // verus!

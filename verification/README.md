# track_rename

Formats the artist, title, album and genre tags of audio files (MP3 and AIFF with ID3
tags) and renames the files to match the tags. When a tag is missing, artist and title
are taken from the file name. It also reads Serato DJ data stored in the tags and Serato
crate files.

## Layout

- `src/` is the library, verified with Verus. Each public function states in its contract
  what it returns or changes:
  - `formatting`, `formatter`, `genre`: the formatting rules for tags, file names and genres;
  - `track`, `tags`: tracks made from paths, the tags read from a file, and the repair of
    ID3 frames that lack a null terminator;
  - `renamer`: the processing of each track as a state machine, `track_step`: from the
    settings, the counts, the track and what happened to the new counts and the next
    action (skip, read tags, convert, write tags, rename, finish). Excluded tracks are
    skipped, and in print-only mode no action changes a file;
  - `serato`: the Serato analysis, autotags, beatgrid, markers and overview tags, and
    `.crate` files;
  - `output`: character-level diffs marked up for coloured display;
  - `config`, `cli_config`, `user_config`, `statistics`, `state`, `file_format`: settings,
    counters and conversions;
  - `completion`: where shell completion scripts are installed;
  - `text`, `paths`, `bytes`, `numfmt`, `unicode`, `regexes`: verified helpers on strings,
    paths and bytes, and the calls into the Unicode and regex crates.
- `app/` is the command-line program around the library: argument parsing, the loop that
  performs the actions `track_step` returns, reading and writing files and tags, the state
  database, confirmation prompts and coloured output.
  Started as `trackprint` it prints tag data; started as `crateprint` it prints Serato
  crates.
- `tests/` holds the tests of the library.

//! Renamer settings, combined from the command line and the user's configuration file.
use vstd::prelude::*;

use crate::text::{extend, from_chars, to_chars};
use crate::user_config::{bool_text, list_text, push_bool, push_list, string_views, UserConfig};

verus! {

/// The command-line options of the renamer.
#[derive(Debug, Clone)]
pub struct RenamerArgs {
    /// Optional input directory or audio file to format.
    pub path: Option<String>,
    /// Resave tags for all files with ID3v2.4.
    pub all_tags: bool,
    /// Convert failed files to AIFF using ffmpeg.
    pub convert: bool,
    /// Collect and save genre statistics.
    pub genre: bool,
    /// Enable debug prints.
    pub debug: bool,
    /// Do not ask for confirmation.
    pub force: bool,
    /// Log files that can't be read.
    pub log: bool,
    /// Don't skip unchanged files since last run.
    pub no_state: bool,
    /// Overwrite existing files when renaming.
    pub overwrite: bool,
    /// Only print changes without modifying files.
    pub print: bool,
    /// Rename all audio files.
    pub rename: bool,
    /// Sort audio files by name.
    pub sort: bool,
    /// Only fix tags without renaming files.
    pub tags_only: bool,
    /// Verbose output.
    pub verbose: bool,
}

/// Renamer settings combined from CLI options and user config file.
#[derive(Debug, Clone)]
pub struct Config {
    pub convert_failed: bool,
    pub debug: bool,
    pub excluded_tracks: Vec<String>,
    pub force: bool,
    pub genre_statistics: bool,
    pub log_failures: bool,
    pub no_state: bool,
    pub print_only: bool,
    pub rename_files: bool,
    pub sort_files: bool,
    pub tags_only: bool,
    pub test_mode: bool,
    pub verbose: bool,
    pub write_all_tags: bool,
    pub overwrite_existing: bool,
}

/// Every option off and nothing excluded.
pub open spec fn is_default_config(c: Config) -> bool {
    !c.convert_failed && !c.debug && c.excluded_tracks@.len() == 0 && !c.force
        && !c.genre_statistics && !c.log_failures && !c.no_state && !c.print_only
        && !c.rename_files && !c.sort_files && !c.tags_only && !c.test_mode && !c.verbose
        && !c.write_all_tags && !c.overwrite_existing
}

/// The settings that tests use: forced, renaming, in test mode; all else off.
pub open spec fn is_test_config(c: Config) -> bool {
    c.force && c.rename_files && c.test_mode && !c.convert_failed && !c.debug
        && c.excluded_tracks@.len() == 0 && !c.genre_statistics && !c.log_failures && !c.no_state
        && !c.print_only && !c.sort_files && !c.tags_only && !c.verbose && !c.write_all_tags
        && !c.overwrite_existing
}

/// Options given on the command line or in the user config both count; the excluded
/// tracks come from the user config; test mode is off.
pub open spec fn combined(c: Config, args: RenamerArgs, user: UserConfig) -> bool {
    &&& c.convert_failed == (args.convert || user.convert_failed)
    &&& c.debug == args.debug
    &&& c.excluded_tracks == user.exclude
    &&& c.force == args.force
    &&& c.genre_statistics == (args.genre || user.genre_statistics)
    &&& c.log_failures == (args.log || user.log_failures)
    &&& c.no_state == (args.no_state || user.no_state)
    &&& c.print_only == args.print
    &&& c.rename_files == args.rename
    &&& c.sort_files == args.sort
    &&& c.tags_only == args.tags_only
    &&& !c.test_mode
    &&& c.verbose == args.verbose
    &&& c.write_all_tags == args.all_tags
    &&& c.overwrite_existing == args.overwrite
}

pub open spec fn flag_line(key: Seq<char>, b: bool) -> Seq<char> {
    "  "@ + key + ": "@ + bool_text(b) + "\n"@
}

pub open spec fn config_text(c: Config) -> Seq<char> {
    "Config:\n"@ + flag_line("force"@, c.force) + flag_line("rename_files"@, c.rename_files)
        + flag_line("sort_files"@, c.sort_files) + flag_line("print_only"@, c.print_only)
        + flag_line("tags_only"@, c.tags_only) + flag_line("verbose"@, c.verbose) + flag_line(
        "debug"@,
        c.debug,
    ) + flag_line("test_mode"@, c.test_mode) + flag_line("log_failures"@, c.log_failures)
        + flag_line("convert_failed"@, c.convert_failed) + flag_line(
        "write_all_tags"@,
        c.write_all_tags,
    ) + flag_line("genre_statistics"@, c.genre_statistics) + list_text(
        "excluded_tracks"@,
        string_views(c.excluded_tracks@),
    )
}

pub(crate) fn push_flag_line(v: &mut Vec<char>, key: &str, b: bool)
    ensures
        final(v)@ == old(v)@ + flag_line(key@, b),
{
    extend(v, &to_chars("  "));
    extend(v, &to_chars(key));
    extend(v, &to_chars(": "));
    push_bool(v, b);
    extend(v, &to_chars("\n"));
}

impl Default for Config {
    fn default() -> (c: Self)
        ensures
            is_default_config(c),
    {
        Config {
            convert_failed: false,
            debug: false,
            excluded_tracks: Vec::new(),
            force: false,
            genre_statistics: false,
            log_failures: false,
            no_state: false,
            print_only: false,
            rename_files: false,
            sort_files: false,
            tags_only: false,
            test_mode: false,
            verbose: false,
            write_all_tags: false,
            overwrite_existing: false,
        }
    }
}

impl Config {
    /// Combine the command-line options with the user config.
    pub fn from_args(args: &RenamerArgs, user_config: UserConfig) -> (c: Self)
        ensures
            combined(c, *args, user_config),
    {
        Config {
            convert_failed: args.convert || user_config.convert_failed,
            debug: args.debug,
            excluded_tracks: user_config.exclude,
            force: args.force,
            genre_statistics: args.genre || user_config.genre_statistics,
            log_failures: args.log || user_config.log_failures,
            no_state: args.no_state || user_config.no_state,
            print_only: args.print,
            rename_files: args.rename,
            sort_files: args.sort,
            tags_only: args.tags_only,
            test_mode: false,
            verbose: args.verbose,
            write_all_tags: args.all_tags,
            overwrite_existing: args.overwrite,
        }
    }

    /// Settings used in tests.
    pub fn new_for_tests() -> (c: Self)
        ensures
            is_test_config(c),
    {
        let mut c = Config::default();
        c.force = true;
        c.rename_files = true;
        c.test_mode = true;
        c
    }

    /// The settings as text.
    pub fn to_string(&self) -> (s: String)
        ensures
            s@ == config_text(*self),
    {
        let mut v = to_chars("Config:\n");
        push_flag_line(&mut v, "force", self.force);
        push_flag_line(&mut v, "rename_files", self.rename_files);
        push_flag_line(&mut v, "sort_files", self.sort_files);
        push_flag_line(&mut v, "print_only", self.print_only);
        push_flag_line(&mut v, "tags_only", self.tags_only);
        push_flag_line(&mut v, "verbose", self.verbose);
        push_flag_line(&mut v, "debug", self.debug);
        push_flag_line(&mut v, "test_mode", self.test_mode);
        push_flag_line(&mut v, "log_failures", self.log_failures);
        push_flag_line(&mut v, "convert_failed", self.convert_failed);
        push_flag_line(&mut v, "write_all_tags", self.write_all_tags);
        push_flag_line(&mut v, "genre_statistics", self.genre_statistics);
        push_list(&mut v, "excluded_tracks", &self.excluded_tracks);
        from_chars(&v)
    }
}

} // verus!

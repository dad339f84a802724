//! Renamer settings from the command line alone.
use vstd::prelude::*;

use crate::config::{flag_line, push_flag_line, RenamerArgs};
use crate::text::{from_chars, to_chars};

verus! {

/// Renamer CLI settings.
#[derive(Debug, Clone, Copy, PartialEq, Eq)]
pub struct CliConfig {
    pub force: bool,
    pub rename_files: bool,
    pub sort_files: bool,
    pub print_only: bool,
    pub tags_only: bool,
    pub verbose: bool,
    pub debug: bool,
    pub test_mode: bool,
    pub log_failures: bool,
    pub convert_failed: bool,
    pub write_all_tags: bool,
}

impl Default for CliConfig {
    fn default() -> (c: Self)
        ensures
            c == (CliConfig {
                force: false,
                rename_files: false,
                sort_files: false,
                print_only: false,
                tags_only: false,
                verbose: false,
                debug: false,
                test_mode: false,
                log_failures: false,
                convert_failed: false,
                write_all_tags: false,
            }),
    {
        CliConfig {
            force: false,
            rename_files: false,
            sort_files: false,
            print_only: false,
            tags_only: false,
            verbose: false,
            debug: false,
            test_mode: false,
            log_failures: false,
            convert_failed: false,
            write_all_tags: false,
        }
    }
}

/// The settings listed by name in alphabetical order, as a JSON object of them lists its keys.
pub open spec fn cli_config_text(c: CliConfig) -> Seq<char> {
    "CliConfig:\n"@ + flag_line("convert_failed"@, c.convert_failed) + flag_line("debug"@, c.debug)
        + flag_line("force"@, c.force) + flag_line("log_failures"@, c.log_failures) + flag_line(
        "print_only"@,
        c.print_only,
    ) + flag_line("rename_files"@, c.rename_files) + flag_line("sort_files"@, c.sort_files)
        + flag_line("tags_only"@, c.tags_only) + flag_line("test_mode"@, c.test_mode) + flag_line(
        "verbose"@,
        c.verbose,
    ) + flag_line("write_all_tags"@, c.write_all_tags)
}

impl CliConfig {
    /// Create config from command line args.
    pub fn from_args(args: &RenamerArgs) -> (c: Self)
        ensures
            c == (CliConfig {
                force: args.force,
                rename_files: args.rename,
                sort_files: args.sort,
                print_only: args.print,
                tags_only: args.tags_only,
                verbose: args.verbose,
                debug: args.debug,
                test_mode: false,
                log_failures: args.log,
                convert_failed: args.convert,
                write_all_tags: args.all_tags,
            }),
    {
        CliConfig {
            force: args.force,
            rename_files: args.rename,
            sort_files: args.sort,
            print_only: args.print,
            tags_only: args.tags_only,
            verbose: args.verbose,
            debug: args.debug,
            test_mode: false,
            log_failures: args.log,
            convert_failed: args.convert,
            write_all_tags: args.all_tags,
        }
    }

    /// Settings used in tests: forced, renaming, in test mode.
    pub fn new_for_tests() -> (c: Self)
        ensures
            c == (CliConfig {
                force: true,
                rename_files: true,
                sort_files: false,
                print_only: false,
                tags_only: false,
                verbose: false,
                debug: false,
                test_mode: true,
                log_failures: false,
                convert_failed: false,
                write_all_tags: false,
            }),
    {
        CliConfig { force: true, rename_files: true, test_mode: true, ..CliConfig::default() }
    }

    /// The settings as text.
    pub fn to_string(&self) -> (s: String)
        ensures
            s@ == cli_config_text(*self),
    {
        let mut v = to_chars("CliConfig:\n");
        push_flag_line(&mut v, "convert_failed", self.convert_failed);
        push_flag_line(&mut v, "debug", self.debug);
        push_flag_line(&mut v, "force", self.force);
        push_flag_line(&mut v, "log_failures", self.log_failures);
        push_flag_line(&mut v, "print_only", self.print_only);
        push_flag_line(&mut v, "rename_files", self.rename_files);
        push_flag_line(&mut v, "sort_files", self.sort_files);
        push_flag_line(&mut v, "tags_only", self.tags_only);
        push_flag_line(&mut v, "test_mode", self.test_mode);
        push_flag_line(&mut v, "verbose", self.verbose);
        push_flag_line(&mut v, "write_all_tags", self.write_all_tags);
        from_chars(&v)
    }
}

} // verus!

//! Options from the user's configuration file.
use vstd::prelude::*;

use crate::text::{extend, from_chars, to_chars};

verus! {

/// User config options from a config file.
#[derive(Debug, Clone)]
pub struct UserConfig {
    /// Filenames to ignore.
    pub exclude: Vec<String>,
    /// Convert files that could not be read to AIFF.
    pub convert_failed: bool,
    /// Collect genre statistics.
    pub genre_statistics: bool,
    /// Log files that could not be read.
    pub log_failures: bool,
    /// Do not skip files that were processed before.
    pub no_state: bool,
}

/// The defaults: nothing excluded, every option off.
pub open spec fn is_default_user_config(c: UserConfig) -> bool {
    c.exclude@.len() == 0 && !c.convert_failed && !c.genre_statistics && !c.log_failures
        && !c.no_state
}

impl Default for UserConfig {
    fn default() -> (c: Self)
        ensures
            is_default_user_config(c),
    {
        UserConfig {
            exclude: Vec::new(),
            convert_failed: false,
            genre_statistics: false,
            log_failures: false,
            no_state: false,
        }
    }
}

pub open spec fn bool_text(b: bool) -> Seq<char> {
    if b {
        "true"@
    } else {
        "false"@
    }
}

/// Each name on a line of its own, indented by four spaces.
pub open spec fn name_lines(names: Seq<Seq<char>>) -> Seq<char>
    decreases names.len(),
{
    if names.len() == 0 {
        Seq::empty()
    } else {
        name_lines(names.drop_last()) + "    "@ + names.last() + "\n"@
    }
}

/// `key: []` for an empty list, or `key:` and the names below it.
pub open spec fn list_text(key: Seq<char>, names: Seq<Seq<char>>) -> Seq<char> {
    if names.len() == 0 {
        "  "@ + key + ": []\n"@
    } else {
        "  "@ + key + ":\n"@ + name_lines(names)
    }
}

pub open spec fn string_views(v: Seq<String>) -> Seq<Seq<char>> {
    v.map_values(|s: String| s@)
}

/// The settings as text. The `genre_statistics` and `log_failures` lines show the value of
/// `convert_failed`, as the settings display always has.
pub open spec fn user_config_text(c: UserConfig) -> Seq<char> {
    "UserConfig:\n  convert_failed: "@ + bool_text(c.convert_failed) + "\n  genre_statistics: "@
        + bool_text(c.convert_failed) + "\n  log_failures: "@ + bool_text(c.convert_failed) + "\n"@
        + list_text("exclude"@, string_views(c.exclude@))
}

pub(crate) fn push_bool(v: &mut Vec<char>, b: bool)
    ensures
        final(v)@ == old(v)@ + bool_text(b),
{
    if b {
        extend(v, &to_chars("true"));
    } else {
        extend(v, &to_chars("false"));
    }
}

pub(crate) fn push_list(v: &mut Vec<char>, key: &str, names: &Vec<String>)
    ensures
        final(v)@ == old(v)@ + list_text(key@, string_views(names@)),
{
    extend(v, &to_chars("  "));
    extend(v, &to_chars(key));
    if names.len() == 0 {
        extend(v, &to_chars(": []\n"));
        return;
    }
    extend(v, &to_chars(":\n"));
    let ghost head = v@;
    let mut i: usize = 0;
    while i < names.len()
        invariant
            i <= names@.len(),
            v@ == head + name_lines(string_views(names@.take(i as int))),
        decreases names.len() - i,
    {
        extend(v, &to_chars("    "));
        extend(v, &to_chars(names[i].as_str()));
        extend(v, &to_chars("\n"));
        assert(string_views(names@.take(i + 1)).drop_last() =~= string_views(names@.take(i as int)));
        i += 1;
    }
    assert(names@.take(names@.len() as int) =~= names@);
}

impl UserConfig {
    /// The parsed configuration file, or the defaults where there is none or it could not be
    /// parsed.
    pub fn get_user_config(parsed: Option<UserConfig>) -> (c: UserConfig)
        ensures
            match parsed {
                Some(p) => c == p,
                None => is_default_user_config(c),
            },
    {
        match parsed {
            Some(p) => p,
            None => UserConfig::default(),
        }
    }

    /// The settings as text.
    pub fn to_string(&self) -> (s: String)
        ensures
            s@ == user_config_text(*self),
    {
        let mut v = to_chars("UserConfig:\n  convert_failed: ");
        push_bool(&mut v, self.convert_failed);
        extend(&mut v, &to_chars("\n  genre_statistics: "));
        push_bool(&mut v, self.convert_failed);
        extend(&mut v, &to_chars("\n  log_failures: "));
        push_bool(&mut v, self.convert_failed);
        extend(&mut v, &to_chars("\n"));
        push_list(&mut v, "exclude", &self.exclude);
        from_chars(&v)
    }
}

} // verus!

//! Where shell completion scripts are installed.
use vstd::prelude::*;

use crate::text::{from_chars, to_chars};

verus! {

/// The shells that completion scripts can be made for.
#[derive(Debug, Clone, Copy, PartialEq, Eq)]
pub enum Shell {
    Bash,
    Elvish,
    Fish,
    PowerShell,
    Zsh,
    /// Any other shell, for which no directory is known.
    Other,
}

/// Where a completion script goes.
#[derive(Debug, Clone, Copy, PartialEq, Eq)]
pub enum CompletionDir {
    /// A plugin directory of its own under oh-my-zsh's custom plugins, created if needed.
    OhMyZshPlugin,
    /// The user's completion directory; `create` when it does not exist yet.
    User { create: bool },
    /// The system-wide completion directory.
    Global,
    /// The shell is not supported.
    Unsupported,
}

/// The user's completion directory for a shell, relative to the home directory.
pub open spec fn spec_user_completion_dir(shell: Shell, windows: bool) -> Option<Seq<char>> {
    match shell {
        Shell::PowerShell => Some(
            if windows {
                "Documents\\PowerShell\\completions"@
            } else {
                ".config/powershell/completions"@
            },
        ),
        Shell::Bash => Some(".bash_completion.d"@),
        Shell::Elvish => Some(".elvish"@),
        Shell::Fish => Some(".config/fish/completions"@),
        Shell::Zsh => Some(".zsh/completions"@),
        Shell::Other => None,
    }
}

/// The system-wide completion directory for a shell, where it has one.
pub open spec fn spec_global_completion_dir(shell: Shell) -> Option<Seq<char>> {
    match shell {
        Shell::Bash => Some("/etc/bash_completion.d"@),
        Shell::Fish => Some("/usr/share/fish/completions"@),
        Shell::Zsh => Some("/usr/share/zsh/site-functions"@),
        _ => None,
    }
}

/// The user's completion directory for a shell, relative to the home directory.
pub fn user_completion_dir(shell: Shell, windows: bool) -> (r: Option<String>)
    ensures
        match spec_user_completion_dir(shell, windows) {
            Some(d) => r matches Some(s) && s@ == d,
            None => r is None,
        },
{
    match shell {
        Shell::PowerShell => if windows {
            Some(from_chars(&to_chars("Documents\\PowerShell\\completions")))
        } else {
            Some(from_chars(&to_chars(".config/powershell/completions")))
        },
        Shell::Bash => Some(from_chars(&to_chars(".bash_completion.d"))),
        Shell::Elvish => Some(from_chars(&to_chars(".elvish"))),
        Shell::Fish => Some(from_chars(&to_chars(".config/fish/completions"))),
        Shell::Zsh => Some(from_chars(&to_chars(".zsh/completions"))),
        Shell::Other => None,
    }
}

/// The system-wide completion directory for a shell, where it has one.
pub fn global_completion_dir(shell: Shell) -> (r: Option<String>)
    ensures
        match spec_global_completion_dir(shell) {
            Some(d) => r matches Some(s) && s@ == d,
            None => r is None,
        },
{
    match shell {
        Shell::Bash => Some(from_chars(&to_chars("/etc/bash_completion.d"))),
        Shell::Fish => Some(from_chars(&to_chars("/usr/share/fish/completions"))),
        Shell::Zsh => Some(from_chars(&to_chars("/usr/share/zsh/site-functions"))),
        _ => None,
    }
}

/// Where to install: oh-my-zsh's plugins for Zsh where they exist; otherwise the user's
/// directory where it exists; otherwise the system-wide one where the shell has one and it
/// exists; otherwise the user's directory, created.
pub open spec fn spec_completion_dir(
    shell: Shell,
    omz_plugins_exist: bool,
    user_dir_exists: bool,
    global_dir_exists: bool,
) -> CompletionDir {
    if shell == Shell::Zsh && omz_plugins_exist {
        CompletionDir::OhMyZshPlugin
    } else if shell == Shell::Other {
        CompletionDir::Unsupported
    } else if user_dir_exists {
        CompletionDir::User { create: false }
    } else if spec_global_completion_dir(shell) is Some && global_dir_exists {
        CompletionDir::Global
    } else {
        CompletionDir::User { create: true }
    }
}

/// Choose the directory for a completion script from what exists.
pub fn completion_dir(
    shell: Shell,
    omz_plugins_exist: bool,
    user_dir_exists: bool,
    global_dir_exists: bool,
) -> (d: CompletionDir)
    ensures
        d == spec_completion_dir(shell, omz_plugins_exist, user_dir_exists, global_dir_exists),
{
    let is_zsh = match shell {
        Shell::Zsh => true,
        _ => false,
    };
    let has_global = match shell {
        Shell::Bash | Shell::Fish | Shell::Zsh => true,
        _ => false,
    };
    match shell {
        Shell::Other => {
            return CompletionDir::Unsupported;
        },
        _ => {},
    }
    if is_zsh && omz_plugins_exist {
        CompletionDir::OhMyZshPlugin
    } else if user_dir_exists {
        CompletionDir::User { create: false }
    } else if has_global && global_dir_exists {
        CompletionDir::Global
    } else {
        CompletionDir::User { create: true }
    }
}

} // verus!

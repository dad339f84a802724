//! Tests of where completion scripts are installed.
use track_rename::completion::{
    completion_dir, global_completion_dir, user_completion_dir, CompletionDir, Shell,
};
use track_rename::utils::get_filename_from_path;

#[test]
fn completion_dir_prefers_existing_directories() {
    assert_eq!(completion_dir(Shell::Zsh, true, true, true), CompletionDir::OhMyZshPlugin);
    assert_eq!(completion_dir(Shell::Bash, true, true, true), CompletionDir::User { create: false });
    assert_eq!(completion_dir(Shell::Bash, false, false, true), CompletionDir::Global);
    assert_eq!(completion_dir(Shell::Bash, false, false, false), CompletionDir::User { create: true });
    assert_eq!(completion_dir(Shell::Elvish, false, false, true), CompletionDir::User { create: true });
    assert_eq!(completion_dir(Shell::Other, true, true, true), CompletionDir::Unsupported);
    assert_eq!(user_completion_dir(Shell::Fish, false).as_deref(), Some(".config/fish/completions"));
    assert_eq!(
        user_completion_dir(Shell::PowerShell, true).as_deref(),
        Some(r"Documents\PowerShell\completions")
    );
    assert_eq!(user_completion_dir(Shell::Other, false), None);
    assert_eq!(global_completion_dir(Shell::Zsh).as_deref(), Some("/usr/share/zsh/site-functions"));
    assert_eq!(global_completion_dir(Shell::PowerShell), None);
}

#[test]
fn file_name_of_a_path() {
    assert_eq!(get_filename_from_path("/music/House").as_deref(), Some("House"));
    assert_eq!(get_filename_from_path("/music/House/.").as_deref(), Some("House"));
    assert_eq!(get_filename_from_path("/music/a\u{FFFD}b.mp3").as_deref(), Some("ab.mp3"));
    assert_eq!(get_filename_from_path("/"), None);
    assert_eq!(get_filename_from_path("/music/.."), None);
}

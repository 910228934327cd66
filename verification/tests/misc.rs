use grove::cli::{ConfigCmd, TreeCmd};
use grove::config::Shell;
use grove::init::{fish_function, init_script, zsh_bash_function};
use grove::multiplexer::Session;
use grove::session::session_list_lines;
use grove::text::{decimal_string, sort_strings, trim};

#[test]
fn shell_integration_scripts() {
    assert!(zsh_bash_function().contains("gv() {"));
    assert!(fish_function().contains("function gv"));
    assert_eq!(init_script(Shell::Zsh), zsh_bash_function());
    assert_eq!(init_script(Shell::Bash), zsh_bash_function());
    assert_eq!(init_script(Shell::Fish), fish_function());
}

#[test]
fn session_listing_lines() {
    let lines = session_list_lines(&vec![Session { name: "a".to_string() }, Session { name: "b".to_string() }]);
    assert_eq!(lines, vec!["  a", "  b"]);
}

#[test]
fn text_helpers() {
    assert_eq!(decimal_string(0), "0");
    assert_eq!(decimal_string(1205), "1205");
    assert_eq!(decimal_string(usize::MAX), usize::MAX.to_string());
    let sorted = sort_strings(&vec!["b".to_string(), "B".to_string(), "a".to_string(), "b".to_string()]);
    assert_eq!(sorted, vec!["B", "a", "b", "b"]);
    assert_eq!(trim("\t hi there \n"), "hi there");
}

#[test]
fn subcommands_compare() {
    let p = TreeCmd::Prune { repo: None, all: true, orphans: false, merged: true };
    assert_eq!(p.clone(), p);
    assert_ne!(ConfigCmd::Show, ConfigCmd::Edit);
}

use std::str::FromStr;

use grove::config::{
    project_names, shell_from_lowered, config_path_in, db_path, BackendEnv, Config, ConfigError, ConfigWarning, MultiplexerBackend,
    PathKind, ResolvedBackend, Shell,
};

#[test]
fn shell_detection_and_parsing() {
    assert_eq!(Shell::detect(Some("/usr/bin/fish")), Shell::Fish);
    assert_eq!(Shell::detect(Some("/bin/bash")), Shell::Bash);
    assert_eq!(Shell::detect(Some("/bin/zsh")), Shell::Zsh);
    assert_eq!(Shell::detect(Some("/opt/fishbash")), Shell::Fish);
    assert_eq!(Shell::detect(None), Shell::Zsh);
    assert_eq!(Shell::from_str("FISH").unwrap(), Shell::Fish);
    assert_eq!(Shell::parse("Bash").unwrap(), Shell::Bash);
    let err = Shell::parse("Tcsh").unwrap_err();
    assert_eq!(err, ConfigError::UnsupportedShell { name: "tcsh".to_string() });
    assert_eq!(err.message(), "Unsupported shell: tcsh. Use zsh, bash, or fish.");
    assert_eq!(Shell::Fish.name(), "fish");
}

fn env(inside_zellij: bool, inside_tmux: bool, zellij_on_path: bool, tmux_on_path: bool) -> BackendEnv {
    BackendEnv { inside_zellij, inside_tmux, zellij_on_path, tmux_on_path }
}

#[test]
fn backend_resolution() {
    assert_eq!(MultiplexerBackend::default(), MultiplexerBackend::Auto);
    let none = env(false, false, false, false);
    assert_eq!(MultiplexerBackend::Tmux.resolve(&none), Some(ResolvedBackend::Tmux));
    assert_eq!(MultiplexerBackend::Zellij.resolve(&none), Some(ResolvedBackend::Zellij));
    assert_eq!(MultiplexerBackend::Auto.resolve(&none), None);
    assert_eq!(MultiplexerBackend::Auto.resolve(&env(false, true, true, false)), Some(ResolvedBackend::Tmux));
    assert_eq!(MultiplexerBackend::Auto.resolve(&env(true, true, false, true)), Some(ResolvedBackend::Zellij));
    assert_eq!(MultiplexerBackend::Auto.resolve(&env(false, false, true, true)), Some(ResolvedBackend::Zellij));
    assert_eq!(MultiplexerBackend::Auto.resolve(&env(false, false, false, true)), Some(ResolvedBackend::Tmux));
    assert_eq!(MultiplexerBackend::Auto.name(), "auto");
}

#[test]
fn directories_behave_like_a_sorted_map() {
    let mut c = Config::new(Shell::Zsh, MultiplexerBackend::Auto);
    assert_eq!(c.only_directory(), None);
    assert!(matches!(c.require_directories("/cfg/config.toml"), Err(ConfigError::NoDirectories { .. })));
    c.insert_directory("work", "/home/u/work");
    assert_eq!(c.only_directory(), Some("work".to_string()));
    c.insert_directory("oss", "/home/u/oss");
    c.insert_directory("zz", "/z");
    c.insert_directory("work", "/srv/work");
    assert_eq!(c.dir_names(), vec!["oss", "work", "zz"]);
    assert_eq!(c.dir_count(), 3);
    assert_eq!(c.resolve_dir("work"), Some("/srv/work".to_string()));
    assert_eq!(c.resolve_dir("nope"), None);
    assert_eq!(c.directory_path("oss").unwrap(), "/home/u/oss");
    let err = c.directory_path("nope").unwrap_err();
    assert_eq!(err.message(), "Directory 'nope' not found in config");
    assert!(c.require_directories("/cfg/config.toml").is_ok());
    assert_eq!(
        c.directory_entries(),
        vec![
            ("oss".to_string(), "/home/u/oss".to_string()),
            ("work".to_string(), "/srv/work".to_string()),
            ("zz".to_string(), "/z".to_string()),
        ]
    );
}

#[test]
fn validation_reports_missing_and_non_directories() {
    let mut c = Config::new(Shell::Bash, MultiplexerBackend::Tmux);
    c.insert_directory("a", "/a");
    c.insert_directory("b", "/b");
    c.insert_directory("c", "/c");
    let warnings = c.validate(&vec![PathKind::Missing, PathKind::Directory, PathKind::Other]);
    assert_eq!(warnings.len(), 2);
    assert!(matches!(&warnings[0], ConfigWarning::DirectoryMissing { name, path } if name == "a" && path == "/a"));
    assert!(matches!(&warnings[1], ConfigWarning::NotADirectory { name, path } if name == "c" && path == "/c"));
    assert_eq!(warnings[0].message(), "configured directory 'a' does not exist: /a");
    assert_eq!(warnings[1].message(), "configured directory 'c' is not a directory: /c");
}

#[test]
fn file_locations() {
    assert_eq!(config_path_in("/home/u/.config/grove"), "/home/u/.config/grove/config.toml");
    assert_eq!(db_path("/home/u/.local/share/grove"), "/home/u/.local/share/grove/grove.db");
    assert_eq!(db_path("/data/"), "/data/grove.db");
}

#[test]
fn config_file_is_config_toml_in_the_config_directory() {
    if let (Ok(path), Ok(dir)) = (Config::path(), grove::config::config_dir()) {
        assert_eq!(path, config_path_in(&dir));
        assert!(path.ends_with("/config.toml"));
    }
}

#[test]
fn shell_names_and_project_names() {
    assert_eq!(shell_from_lowered("bash").unwrap(), Shell::Bash);
    assert!(matches!(shell_from_lowered("BASH"), Err(ConfigError::UnsupportedShell { ref name }) if name == "BASH"));
    assert_eq!(project_names(), ("", "", "grove"));
}

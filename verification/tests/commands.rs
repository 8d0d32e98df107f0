use mcserver::cli::{list_mode, reinstall_source, ListMode, ReinstallSource};
use mcserver::config_defs::{DynamicConfig, Password, RconConfig, RconTable};
use mcserver::error::Error;
use mcserver::rcon::{run, RCON_COMMAND};
use mcserver::reinstaller::{with_crate, with_git, with_path, INSTALLER};
use mcserver::tags::Filter;

fn config(rcon: Option<Vec<(String, RconConfig)>>) -> DynamicConfig {
    DynamicConfig {
        default_java_args: String::new(),
        nogui: false,
        servers_directory: String::new(),
        default_server: None,
        rcon: rcon.map(|entries| {
            let mut table = RconTable::new();
            for (server, settings) in entries {
                table.insert(server, settings);
            }
            table
        }),
    }
}

fn entry(
    server: &str,
    address: Option<&str>,
    port: Option<u16>,
    password: Option<&str>,
) -> (String, RconConfig) {
    (
        server.to_string(),
        RconConfig {
            server_address: address.map(String::from),
            port,
            password: password.map(|p| Password(p.to_string())),
        },
    )
}

fn words(words: &[&str]) -> Vec<String> {
    words.iter().map(|w| w.to_string()).collect()
}

#[test]
fn the_remote_console_is_called_with_all_settings() {
    assert_eq!(RCON_COMMAND, "mcrcon");
    let c = config(Some(vec![
        entry("other", None, None, None),
        entry("a", Some("localhost"), Some(25575), Some("secret")),
    ]));
    assert_eq!(
        run(&c, "a", &words(&["say hi", "stop"])).unwrap(),
        vec!["-H", "localhost", "-P", "25575", "-p", "secret", "say hi", "stop"]
    );
}

#[test]
fn settings_that_are_absent_are_left_out() {
    let c = config(Some(vec![entry("a", None, None, None), entry("b", None, Some(0), None)]));
    assert_eq!(run(&c, "a", &words(&["stop"])).unwrap(), vec!["stop"]);
    assert!(run(&c, "a", &words(&[])).unwrap().is_empty());
    assert_eq!(run(&c, "b", &words(&["x"])).unwrap(), vec!["-P", "0", "x"]);
    let c = config(Some(vec![entry("a", None, Some(65535), Some(""))]));
    assert_eq!(run(&c, "a", &words(&[])).unwrap(), vec!["-P", "65535", "-p", ""]);
}

#[test]
fn a_server_has_one_entry_and_the_last_settings_entered_count() {
    let mut table = RconTable::new();
    assert_eq!(table.len(), 0);
    assert!(table.get("a").is_none());
    for (server, settings) in [
        entry("a", Some("one"), None, None),
        entry("b", None, Some(1), None),
        entry("a", Some("two"), None, None),
    ] {
        table.insert(server, settings);
    }
    assert_eq!(table.len(), 2);
    assert_eq!(table.entry(0).server, "a");
    assert_eq!(table.entry(1).server, "b");
    assert_eq!(table.get("a").unwrap().server_address.as_deref(), Some("two"));
    assert_eq!(table.get("b").unwrap().port, Some(1));
    assert!(table.get("c").is_none());

    let c = config(Some(vec![
        entry("a", Some("one"), None, None),
        entry("a", Some("two"), None, None),
    ]));
    assert_eq!(run(&c, "a", &words(&[])).unwrap(), vec!["-H", "two"]);
}

#[test]
fn missing_remote_console_settings_are_errors() {
    assert!(matches!(run(&config(None), "a", &words(&["stop"])), Err(Error::NoRconConfig)));
    match run(&config(Some(vec![entry("b", None, None, None)])), "a", &words(&["stop"])) {
        Err(Error::MissingRconConfig(name)) => assert_eq!(name, "a"),
        other => panic!("unexpected: {:?}", other),
    }
    match run(&config(Some(vec![])), "a", &words(&[])) {
        Err(Error::MissingRconConfig(name)) => assert_eq!(name, "a"),
        other => panic!("unexpected: {:?}", other),
    }
}

#[test]
fn reinstalling_from_each_source() {
    assert_eq!(INSTALLER, "cargo");
    assert_eq!(
        with_git("https://example.org/repo", None),
        vec!["install", "--git", "https://example.org/repo", "--force"]
    );
    assert_eq!(
        with_git("https://example.org/repo", Some("abc123")),
        vec!["install", "--git", "https://example.org/repo/commit/abc123", "--force"]
    );
    assert_eq!(with_path("/src/tool"), vec!["install", "--path", "/src/tool", "--force"]);
    assert_eq!(with_crate("mcserver"), vec!["install", "mcserver"]);
}

#[test]
fn the_list_flags_select_the_listing() {
    assert_eq!(list_mode(false, false, false), ListMode { filter: Filter::All, mark_dead: true });
    assert_eq!(list_mode(true, false, false), ListMode { filter: Filter::Active, mark_dead: false });
    assert_eq!(list_mode(false, true, false), ListMode { filter: Filter::Inactive, mark_dead: false });
    assert_eq!(list_mode(false, true, true), ListMode { filter: Filter::Inactive, mark_dead: true });
    assert_eq!(list_mode(false, false, true), ListMode { filter: Filter::Dead, mark_dead: true });
    assert_eq!(list_mode(true, true, true), ListMode { filter: Filter::Active, mark_dead: false });
}

#[test]
fn a_path_wins_over_the_repository_and_the_registry() {
    match reinstall_source(true, Some("c".into()), Some("/p".into()), true) {
        Some(ReinstallSource::Path(p)) => assert_eq!(p, "/p"),
        other => panic!("unexpected: {:?}", other),
    }
    match reinstall_source(true, Some("c".into()), None, true) {
        Some(ReinstallSource::Git(commit)) => assert_eq!(commit.as_deref(), Some("c")),
        other => panic!("unexpected: {:?}", other),
    }
    match reinstall_source(true, None, None, false) {
        Some(ReinstallSource::Git(commit)) => assert_eq!(commit, None),
        other => panic!("unexpected: {:?}", other),
    }
    assert!(matches!(reinstall_source(false, None, None, true), Some(ReinstallSource::Crate)));
    assert!(reinstall_source(false, Some("c".into()), None, false).is_none());
}

use mcserver::error::Error;
use mcserver::session::{
    attach, classify_listing, command_result, confirm_delete_all, delete_all,
    delete_server_session, delete_session, get_alive_server_sessions, get_dead_server_sessions,
    get_name, get_server_sessions_to_living, list_sessions, new_session, restart,
    session_has_exited, session_is_alive, session_line_to_server, session_write, write_chars,
    write_line, Answer, BASE_COMMAND, SESSION_GRACE_MILLIS, SUFFIX,
};

fn alive_line(session: &str) -> String {
    format!("\u{1b}[32;1m{session}\u{1b}[m [Created \u{1b}[35;1m1h 2m 3s\u{1b}[m ago]")
}

fn dead_line(session: &str) -> String {
    format!(
        "\u{1b}[32;1m{session}\u{1b}[m [Created \u{1b}[35;1m4days\u{1b}[m ago] (\u{1b}[31;1mEXITED\u{1b}[m - attach to resurrect)"
    )
}

fn sorted(mut names: Vec<String>) -> Vec<String> {
    names.sort();
    names
}

#[test]
fn session_name_is_server_and_suffix() {
    assert_eq!(BASE_COMMAND, "zellij");
    assert_eq!(SUFFIX, ".mcserver");
    assert_eq!(get_name("survival"), "survival.mcserver");
    assert_eq!(get_name(""), ".mcserver");
}

#[test]
fn exited_in_the_last_parenthesis_is_dead() {
    assert!(session_has_exited("name [Created 1h ago] (EXITED - attach to resurrect)"));
    assert!(session_has_exited("x (EXITED)"));
    assert!(session_has_exited(&dead_line("a.mcserver")));
    assert!(!session_is_alive("x (EXITED)"));
}

#[test]
fn anything_else_is_alive() {
    assert!(!session_has_exited("name [Created 1h ago]"));
    assert!(!session_has_exited("name [Created 1h ago] (current)"));
    assert!(!session_has_exited(""));
    assert!(!session_has_exited("EXITED"));
    assert!(!session_has_exited("EXITED ("));
    assert!(!session_has_exited("(EXITED) (current)"));
    assert!(!session_has_exited("(exited)"));
    assert!(session_is_alive("no parenthesis at all"));
    assert!(session_is_alive(&alive_line("a.mcserver")));
}

#[test]
fn exited_may_stand_anywhere_after_the_last_parenthesis() {
    assert!(session_has_exited("a (b) (c EXITED d"));
    assert!(session_has_exited("(EXITED"));
    assert!(session_has_exited("( and later EXITED)"));
}

#[test]
fn server_is_read_from_the_session_name() {
    assert_eq!(session_line_to_server(&alive_line("survival.mcserver")), Some("survival".to_string()));
    assert_eq!(session_line_to_server(&dead_line("creative.mcserver")), Some("creative".to_string()));
    assert_eq!(session_line_to_server(&alive_line(".mcserver")), Some("".to_string()));
}

#[test]
fn other_sessions_are_no_servers() {
    assert_eq!(session_line_to_server(&alive_line("work")), None);
    assert_eq!(session_line_to_server(&alive_line("survival.mcserver.bak")), None);
    assert_eq!(session_line_to_server("no marker here"), None);
    assert_eq!(session_line_to_server(""), None);
}

#[test]
fn a_marker_too_far_left_shows_no_server() {
    assert_eq!(session_line_to_server("[Created"), None);
    assert_eq!(session_line_to_server("0123456789[Created"), None);
    assert_eq!(session_line_to_server("0123456.mcserver7890[Created"), Some("".to_string()));
}

#[test]
fn names_may_hold_any_text() {
    assert_eq!(session_line_to_server(&alive_line("größe.mcserver")), Some("größe".to_string()));
    assert_eq!(session_line_to_server(&dead_line("日本語.mcserver")), Some("日本語".to_string()));
    let line = alive_line("größe.mcserver");
    let at = line.rfind("[Created").unwrap();
    assert_eq!(&line[7..=at - 5], "größe.mcserver");
}

#[test]
fn lead_and_gap_are_counted_in_characters() {
    assert_eq!(
        session_line_to_server("é23456Xname.mcserver7890[Created"),
        Some("name".to_string())
    );
    assert_eq!(
        session_line_to_server("0123456name.mcserverééée[Created"),
        Some("name".to_string())
    );
}

#[test]
fn the_last_marker_counts() {
    let line = "\u{1b}[32;1m[Created.mcserver\u{1b}[m [Created now]";
    assert_eq!(session_line_to_server(line), Some("[Created".to_string()));
}

#[test]
fn listing_status_zero_has_sessions() {
    match classify_listing(Some(0), &b"abc\n".to_vec(), vec![]) {
        Ok(Some(text)) => assert_eq!(text, "abc\n"),
        other => panic!("unexpected: {:?}", other),
    }
}

#[test]
fn listing_output_is_read_lossily() {
    match classify_listing(Some(0), &vec![b'a', 0xff, b'b'], vec![]) {
        Ok(Some(text)) => assert_eq!(text, "a\u{fffd}b"),
        other => panic!("unexpected: {:?}", other),
    }
}

#[test]
fn listing_status_one_has_no_sessions() {
    assert!(matches!(classify_listing(Some(1), &b"ignored".to_vec(), vec![1]), Ok(None)));
}

#[test]
fn any_other_listing_status_is_a_failure() {
    match classify_listing(Some(2), &vec![], b"boom".to_vec()) {
        Err(Error::CommandFailure { code, stderr }) => {
            assert_eq!(code, Some(2));
            assert_eq!(stderr, Some(b"boom".to_vec()));
        }
        other => panic!("unexpected: {:?}", other),
    }
    match classify_listing(None, &vec![], vec![]) {
        Err(Error::CommandFailure { code, stderr }) => {
            assert_eq!(code, None);
            assert_eq!(stderr, Some(vec![]));
        }
        other => panic!("unexpected: {:?}", other),
    }
}

fn sample_listing() -> String {
    [
        alive_line("survival.mcserver"),
        dead_line("creative.mcserver"),
        alive_line("work"),
        dead_line("old.mcserver"),
        "garbage".to_string(),
        alive_line("lobby.mcserver"),
    ]
    .join("\n")
        + "\n"
}

#[test]
fn records_follow_the_lines() {
    let records = list_sessions(&sample_listing());
    let seen: Vec<(String, bool)> =
        records.into_iter().map(|r| (r.instance_name, r.alive)).collect();
    assert_eq!(
        seen,
        vec![
            ("survival".to_string(), true),
            ("creative".to_string(), false),
            ("old".to_string(), false),
            ("lobby".to_string(), true),
        ]
    );
}

#[test]
fn alive_and_dead_sets() {
    let listing = sample_listing();
    assert_eq!(sorted(get_alive_server_sessions(Some(&listing))), vec!["lobby", "survival"]);
    assert_eq!(sorted(get_dead_server_sessions(Some(&listing))), vec!["creative", "old"]);
}

#[test]
fn no_listing_means_no_sessions() {
    assert!(get_alive_server_sessions(None).is_empty());
    assert!(get_dead_server_sessions(None).is_empty());
    assert!(get_server_sessions_to_living(None).is_empty());
    assert!(delete_all(None).is_empty());
    assert!(get_alive_server_sessions(Some("")).is_empty());
}

#[test]
fn sets_hold_each_name_once() {
    let listing = [alive_line("a.mcserver"), alive_line("a.mcserver"), dead_line("a.mcserver")].join("\n");
    assert_eq!(get_alive_server_sessions(Some(&listing)), vec!["a"]);
    assert_eq!(get_dead_server_sessions(Some(&listing)), vec!["a"]);
}

#[test]
fn the_last_line_about_a_server_decides_its_state() {
    let listing = [alive_line("a.mcserver"), dead_line("b.mcserver"), dead_line("a.mcserver")].join("\r\n");
    let mut states: Vec<(String, bool)> = get_server_sessions_to_living(Some(&listing))
        .into_iter()
        .map(|r| (r.instance_name, r.alive))
        .collect();
    states.sort();
    assert_eq!(states, vec![("a".to_string(), false), ("b".to_string(), false)]);
}

#[test]
fn mapping_covers_alive_and_dead() {
    let mut states: Vec<(String, bool)> = get_server_sessions_to_living(Some(&sample_listing()))
        .into_iter()
        .map(|r| (r.instance_name, r.alive))
        .collect();
    states.sort();
    assert_eq!(
        states,
        vec![
            ("creative".to_string(), false),
            ("lobby".to_string(), true),
            ("old".to_string(), false),
            ("survival".to_string(), true),
        ]
    );
}

#[test]
fn command_arguments() {
    assert_eq!(attach("a"), vec!["attach", "a.mcserver"]);
    assert_eq!(new_session("a.mcserver"), vec!["--session", "a.mcserver"]);
    assert_eq!(delete_session("s", false), vec!["delete-session", "s"]);
    assert_eq!(delete_session("s", true), vec!["delete-session", "s", "--force"]);
    assert_eq!(delete_server_session("a", false), vec!["delete-session", "a.mcserver"]);
    assert_eq!(delete_server_session("a", true), vec!["delete-session", "a.mcserver", "--force"]);
    assert_eq!(session_write("s", "write", "13"), vec!["--session", "s", "action", "write", "13"]);
    assert_eq!(write_chars("s", "say hi"), vec!["--session", "s", "action", "write-chars", "say hi"]);
    assert_eq!(SESSION_GRACE_MILLIS, 300);
}

#[test]
fn a_line_is_typed_and_then_entered() {
    let (first, second) = write_line("s", "stop");
    assert_eq!(first, vec!["--session", "s", "action", "write-chars", "stop"]);
    assert_eq!(second, vec!["--session", "s", "action", "write", "13"]);
}

#[test]
fn bulk_deletion_covers_the_dead_sessions() {
    let mut commands = delete_all(Some(&sample_listing()));
    commands.sort();
    assert_eq!(
        commands,
        vec![
            vec!["delete-session".to_string(), "creative.mcserver".to_string()],
            vec!["delete-session".to_string(), "old.mcserver".to_string()],
        ]
    );
}

#[test]
fn yes_and_no_in_any_case() {
    for yes in ["y", "Y", "yes", "YES", "Yes", "yEs", "y\n", "yes \r\n"] {
        assert_eq!(confirm_delete_all(yes), Answer::Yes, "{yes:?}");
    }
    for no in ["n", "N", "no", "NO", "No", "nO", "n\n", "no\t"] {
        assert_eq!(confirm_delete_all(no), Answer::No, "{no:?}");
    }
}

#[test]
fn anything_else_asks_again() {
    for other in ["", "\n", "ye", "yess", " y", "nope", "maybe", "ja", "0", "y e s"] {
        assert_eq!(confirm_delete_all(other), Answer::AskAgain, "{other:?}");
    }
}

#[test]
fn answers_agree_with_lowercasing() {
    for text in ["y", "Y", "yes", "YeS", "n", "No", "nO", "ſ", "yeſ", "K", "ýes", "NΟ"] {
        let lowered = text.trim_end().to_lowercase();
        let expected = match lowered.as_str() {
            "y" | "yes" => Answer::Yes,
            "n" | "no" => Answer::No,
            _ => Answer::AskAgain,
        };
        assert_eq!(confirm_delete_all(text), expected, "{text:?}");
    }
}

#[test]
fn command_result_carries_the_failure() {
    assert!(command_result(true, Some(0), None).is_ok());
    assert!(command_result(true, Some(3), Some(vec![1])).is_ok());
    match command_result(false, Some(3), Some(b"x".to_vec())) {
        Err(Error::CommandFailure { code, stderr }) => {
            assert_eq!(code, Some(3));
            assert_eq!(stderr, Some(b"x".to_vec()));
        }
        other => panic!("unexpected: {:?}", other),
    }
    match command_result(false, None, None) {
        Err(Error::CommandFailure { code, stderr }) => {
            assert_eq!(code, None);
            assert_eq!(stderr, None);
        }
        other => panic!("unexpected: {:?}", other),
    }
}

#[test]
fn restart_finds_the_server_of_the_session() {
    assert_eq!(restart(Some("survival.mcserver".to_string())).unwrap(), "survival");
    assert!(matches!(restart(None), Err(Error::NoSessionName)));
    match restart(Some("work".to_string())) {
        Err(Error::InvalidServerSession(name)) => assert_eq!(name, "work"),
        other => panic!("unexpected: {:?}", other),
    }
}

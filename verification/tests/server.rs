use mcserver::error::Error;
use mcserver::platforms::Platform;
use mcserver::server::{
    after_removal_attempt, confirm_removal, default_server_name, from_template, get_all_hashed,
    get_command, get_server_dir_required, get_server_jar_path, is_template, jar_file_name,
    jar_reference, new_template, remove_servers, set_jar_file_metadata, template_name,
    Confirmation, JarReference, RemovalStep, ServerFiles, ServerObject, ATTEMPTS,
    JAR_FILE_TXT_NAME, LAST_USED_FILE, METADATA_DIRECTORY, TEMPLATE_SUFFIX,
};

fn dir(names: &[&str]) -> Vec<String> {
    names.iter().map(|n| n.to_string()).collect()
}

fn remove_with(outcomes: Vec<Result<(), String>>) -> (usize, Result<(), String>) {
    let mut tried = 0;
    let mut attempt: u8 = 1;
    for outcome in outcomes {
        tried += 1;
        match after_removal_attempt(attempt, outcome) {
            RemovalStep::Retry => attempt += 1,
            RemovalStep::Done(result) => return (tried, result),
        }
    }
    panic!("the removal did not come to an end");
}

#[test]
fn names_of_the_metadata() {
    assert_eq!(TEMPLATE_SUFFIX, ".template");
    assert_eq!(METADATA_DIRECTORY, ".mcserver");
    assert_eq!(JAR_FILE_TXT_NAME, "jar_file.txt");
    assert_eq!(LAST_USED_FILE, "last_used.timestamp");
    assert_eq!(ATTEMPTS, 10);
}

#[test]
fn a_new_server_object_has_no_tags() {
    let server = ServerObject::new("a".to_string());
    assert_eq!(server.name, "a");
    assert!(server.tags.is_empty());
}

#[test]
fn templates_end_with_the_suffix() {
    assert!(is_template("a.template"));
    assert!(is_template(".template"));
    assert!(!is_template("a"));
    assert!(!is_template("a.template.bak"));
    assert!(!is_template("template"));
    assert!(!is_template(""));
    assert_eq!(template_name("a"), "a.template");
}

#[test]
fn a_template_of_a_template_is_refused() {
    for existing in [dir(&[]), dir(&["a.template"]), dir(&["a.template", "a.template.template"])] {
        assert!(matches!(
            new_template(&existing, "a.template"),
            Err(Error::TemplateUsedForTemplate)
        ));
    }
}

#[test]
fn a_template_needs_its_server() {
    match new_template(&dir(&["b"]), "a") {
        Err(Error::ServerNotFound(name)) => assert_eq!(name, "a"),
        other => panic!("unexpected: {:?}", other),
    }
}

#[test]
fn a_template_is_made_once() {
    match new_template(&dir(&["a", "a.template"]), "a") {
        Err(Error::TemplateAlreadyExists(name)) => assert_eq!(name, "a"),
        other => panic!("unexpected: {:?}", other),
    }
}

#[test]
fn a_template_is_a_copy_beside_the_server() {
    let plan = new_template(&dir(&["a", "b.template"]), "a").unwrap();
    assert_eq!(plan.source, "a");
    assert_eq!(plan.target, "a.template");
}

#[test]
fn an_existing_target_is_refused() {
    let existing = dir(&["a", "a.template", "b"]);
    for template in ["a", "a.template"] {
        match from_template(&existing, template, Some("b")) {
            Err(Error::ServerAlreadyExists(name)) => assert_eq!(name, "b"),
            other => panic!("unexpected: {:?}", other),
        }
    }
}

#[test]
fn an_existing_target_is_refused_before_a_missing_template() {
    let existing = dir(&["a", "b"]);
    for template in ["a", "a.template", "nothing"] {
        match from_template(&existing, template, Some("b")) {
            Err(Error::ServerAlreadyExists(name)) => assert_eq!(name, "b"),
            other => panic!("unexpected: {:?}", other),
        }
    }
}

#[test]
fn a_missing_template_is_refused() {
    let existing = dir(&["a", "b"]);
    match from_template(&existing, "a", Some("fresh")) {
        Err(Error::TemplateNotFound(name)) => assert_eq!(name, "a"),
        other => panic!("unexpected: {:?}", other),
    }
    match from_template(&existing, "a.template", None) {
        Err(Error::TemplateNotFound(name)) => assert_eq!(name, "a.template"),
        other => panic!("unexpected: {:?}", other),
    }
}

#[test]
fn a_named_target_is_used_as_given() {
    let plan = from_template(&dir(&["a.template"]), "a", Some("fresh")).unwrap();
    assert_eq!(plan.source, "a.template");
    assert_eq!(plan.target, "fresh");
}

#[test]
fn an_unnamed_target_is_seeded_from_the_base_name() {
    let plan = from_template(&dir(&["a.template"]), "a.template", None).unwrap();
    assert_eq!(plan.target, "a");
    let plan = from_template(&dir(&["a.template", "a", "a-2"]), "a", None).unwrap();
    assert_eq!(plan.target, "a-3");
}

#[test]
fn removal_succeeds_on_the_tenth_attempt() {
    let mut outcomes: Vec<Result<(), String>> = (1..=9).map(|i| Err(format!("busy {i}"))).collect();
    outcomes.push(Ok(()));
    assert_eq!(remove_with(outcomes), (10, Ok(())));
}

#[test]
fn removal_gives_up_after_ten_failures() {
    let outcomes: Vec<Result<(), String>> = (1..=12).map(|i| Err(format!("busy {i}"))).collect();
    assert_eq!(remove_with(outcomes), (10, Err("busy 10".to_string())));
}

#[test]
fn removal_stops_at_the_first_success() {
    assert_eq!(remove_with(vec![Ok(()), Err("late".to_string())]), (1, Ok(())));
    assert_eq!(remove_with(vec![Err("a".to_string()), Err("b".to_string()), Ok(())]), (3, Ok(())));
}

#[test]
fn attempts_past_the_last_end_the_removal() {
    assert!(matches!(after_removal_attempt(11, Err::<(), u8>(7)), RemovalStep::Done(Err(7))));
    assert!(matches!(after_removal_attempt(255, Err::<(), u8>(7)), RemovalStep::Done(Err(7))));
    assert!(matches!(after_removal_attempt(0, Err::<(), u8>(7)), RemovalStep::Retry));
    assert!(matches!(after_removal_attempt(9, Err::<(), u8>(7)), RemovalStep::Retry));
    assert!(matches!(after_removal_attempt(10, Ok::<(), u8>(())), RemovalStep::Done(Ok(()))));
}

#[test]
fn servers_are_removed_up_to_the_first_missing_one() {
    let existing = dir(&["a", "b", "c"]);
    let plan = remove_servers(&existing, dir(&["a", "c"]));
    assert_eq!(plan.remove, vec!["a", "c"]);
    assert!(plan.failure.is_none());

    let plan = remove_servers(&existing, dir(&["b", "x", "a"]));
    assert_eq!(plan.remove, vec!["b"]);
    match plan.failure {
        Some(Error::ServerNotFound(name)) => assert_eq!(name, "x"),
        other => panic!("unexpected: {:?}", other),
    }

    let plan = remove_servers(&existing, dir(&[]));
    assert!(plan.remove.is_empty());
    assert!(plan.failure.is_none());
}

#[test]
fn typing_the_name_confirms() {
    assert_eq!(confirm_removal("a", "a\n"), Confirmation::Confirmed);
    assert_eq!(confirm_removal("a", "a"), Confirmation::Confirmed);
    assert_eq!(confirm_removal("a", "a \t\r\n"), Confirmation::Confirmed);
    assert_eq!(confirm_removal("a", "a\u{a0}\u{3000}\u{2028}"), Confirmation::Confirmed);
}

#[test]
fn an_empty_answer_cancels() {
    assert_eq!(confirm_removal("a", ""), Confirmation::Canceled);
    assert_eq!(confirm_removal("alpha", "\n"), Confirmation::Canceled);
    assert_eq!(confirm_removal("alpha", "\r\n"), Confirmation::Canceled);
    assert_eq!(confirm_removal("alpha", "  \t\n"), Confirmation::Canceled);
}

#[test]
fn any_other_removal_answer_asks_again() {
    assert_eq!(confirm_removal("a", "b\n"), Confirmation::AskAgain);
    assert_eq!(confirm_removal("a", " a\n"), Confirmation::AskAgain);
    assert_eq!(confirm_removal("a", "A\n"), Confirmation::AskAgain);
    assert_eq!(confirm_removal("a", "a\u{200b}"), Confirmation::AskAgain);
}

#[test]
fn an_empty_name_is_confirmed_by_an_empty_line() {
    assert_eq!(confirm_removal("", "\n"), Confirmation::Confirmed);
    assert_eq!(confirm_removal("", ""), Confirmation::Confirmed);
}

#[test]
fn the_fleet_is_the_set_of_entries() {
    let mut all = get_all_hashed("/srv".to_string(), Some(dir(&["b", "a", "b", "c", "a"]))).unwrap();
    all.sort();
    assert_eq!(all, vec!["a", "b", "c"]);
    assert!(get_all_hashed("/srv".to_string(), Some(dir(&[]))).unwrap().is_empty());
}

#[test]
fn a_missing_servers_directory_is_named() {
    match get_all_hashed("/srv".to_string(), None) {
        Err(Error::MissingDirectory { dir }) => assert_eq!(dir, "/srv"),
        other => panic!("unexpected: {:?}", other),
    }
    match get_server_dir_required("/srv/a".to_string(), false) {
        Err(Error::MissingDirectory { dir }) => assert_eq!(dir, "/srv/a"),
        other => panic!("unexpected: {:?}", other),
    }
    assert_eq!(get_server_dir_required("/srv/a".to_string(), true).unwrap(), "/srv/a");
}

#[test]
fn the_jar_record_is_the_name_and_a_line_feed() {
    assert_eq!(set_jar_file_metadata("paper.jar"), "paper.jar\n");
    assert_eq!(jar_reference("paper.jar\n"), "paper.jar");
    assert_eq!(jar_reference("paper.jar \r\n\n"), "paper.jar");
    assert_eq!(jar_reference("  paper.jar"), "  paper.jar");
    assert_eq!(jar_reference(&set_jar_file_metadata("a b.jar")), "a b.jar");
    assert_eq!(jar_reference("\n"), "");
}

#[test]
fn trimming_agrees_with_the_standard_library() {
    for text in ["a\u{85}", "a\u{1680}", "a\u{2000}\u{200a}", "a\u{200b}", "a\u{2029}\u{202f}\u{205f}", "a\u{feff}", "a\u{b}\u{c}", "a\u{1c}", "a\u{180e}"] {
        assert_eq!(jar_reference(text), text.trim_end(), "{text:?}");
    }
}

#[test]
fn the_jar_and_its_record_have_to_exist() {
    match get_server_jar_path("/s/a/.mcserver/jar_file.txt".to_string(), None) {
        Err(Error::MissingFile { file }) => assert_eq!(file, "/s/a/.mcserver/jar_file.txt"),
        other => panic!("unexpected: {:?}", other),
    }
    let gone = JarReference { path: "/s/a/paper.jar".to_string(), is_file: false };
    match get_server_jar_path("/s/a/.mcserver/jar_file.txt".to_string(), Some(gone)) {
        Err(Error::MissingFile { file }) => assert_eq!(file, "/s/a/paper.jar"),
        other => panic!("unexpected: {:?}", other),
    }
    let there = JarReference { path: "/s/a/paper.jar".to_string(), is_file: true };
    assert_eq!(
        get_server_jar_path("/s/a/.mcserver/jar_file.txt".to_string(), Some(there)).unwrap(),
        "/s/a/paper.jar"
    );
}

fn files(is_dir: bool, reference: Option<(bool,)>) -> ServerFiles {
    ServerFiles {
        server_dir: "/s/a".to_string(),
        is_dir,
        jar_file_txt: "/s/a/.mcserver/jar_file.txt".to_string(),
        reference: reference
            .map(|(is_file,)| JarReference { path: "/s/a/paper.jar".to_string(), is_file }),
    }
}

#[test]
fn the_command_runs_the_jar_in_its_directory() {
    assert_eq!(
        get_command("a", files(true, Some((true,))), "-Xmx2G", true).unwrap(),
        "zellij action rename-tab Server && cd /s/a && java -jar -Xmx2G /s/a/paper.jar nogui && zellij kill-session $ZELLIJ_SESSION_NAME"
    );
    assert_eq!(
        get_command("a", files(true, Some((true,))), "", false).unwrap(),
        "zellij action rename-tab Server && cd /s/a && java -jar  /s/a/paper.jar  && zellij kill-session $ZELLIJ_SESSION_NAME"
    );
}

#[test]
fn a_template_is_never_run() {
    for f in [files(true, Some((true,))), files(false, None), files(true, None)] {
        assert!(matches!(get_command("a.template", f, "", true), Err(Error::TemplateDeployed)));
    }
}

#[test]
fn the_command_names_what_is_missing() {
    match get_command("a", files(false, Some((true,))), "", true) {
        Err(Error::MissingDirectory { dir }) => assert_eq!(dir, "/s/a"),
        other => panic!("unexpected: {:?}", other),
    }
    match get_command("a", files(true, None), "", true) {
        Err(Error::MissingFile { file }) => assert_eq!(file, "/s/a/.mcserver/jar_file.txt"),
        other => panic!("unexpected: {:?}", other),
    }
    match get_command("a", files(true, Some((false,))), "", true) {
        Err(Error::MissingFile { file }) => assert_eq!(file, "/s/a/paper.jar"),
        other => panic!("unexpected: {:?}", other),
    }
}

#[test]
fn the_jar_is_named_by_the_header() {
    assert_eq!(
        jar_file_name(Some("attachment; filename=\"paper-1.21.jar\""), Platform::Paper),
        "paper-1.21.jar"
    );
    assert_eq!(
        jar_file_name(Some("attachment; filename=\"a.jar\"; filename=\"b.jar\""), Platform::Paper),
        "a.jar"
    );
    assert_eq!(jar_file_name(Some("filename=\"open"), Platform::Paper), "open");
    assert_eq!(jar_file_name(Some("filename=\"\""), Platform::Paper), "");
}

#[test]
fn the_jar_is_named_by_the_platform_without_a_header() {
    assert_eq!(jar_file_name(None, Platform::Fabric), "fabric.jar");
    assert_eq!(jar_file_name(Some("attachment"), Platform::Purpur), "purpur.jar");
    assert_eq!(jar_file_name(Some("filename=a.jar"), Platform::Paper), "paper.jar");
    assert_eq!(jar_file_name(Some(""), Platform::Forge), "forge.jar");
    assert_eq!(default_server_name(Platform::Neoforge), "neoforge-server");
}

#[test]
fn header_file_names_agree_with_splitting() {
    for header in ["x filename=\"a\" y", "filename=\"filename=\"b\"", "filename=\"", "f=\"a\"", "\"filename=\"c"] {
        let expected = header
            .split("filename=\"")
            .nth(1)
            .and_then(|slice| slice.split('"').next())
            .map(String::from)
            .unwrap_or_else(|| "paper.jar".to_string());
        assert_eq!(jar_file_name(Some(header), Platform::Paper), expected, "{header:?}");
    }
}

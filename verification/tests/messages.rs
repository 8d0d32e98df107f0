use mcserver::error::Error;
use mcserver::platforms::parse_download_url;

#[test]
fn messages_of_errors_without_data() {
    assert_eq!(Error::InvalidServersDirectory.message(), "Invalid servers directory");
    assert_eq!(Error::NoDefaultServer.message(), "There is no default server");
    assert_eq!(
        Error::NoRconConfig.message(),
        "Rcon config is not present, but required for remote connections"
    );
    assert_eq!(Error::NoServerChild.message(), "No server child was given");
    assert_eq!(Error::NoSessionName.message(), "No session name found");
    assert_eq!(Error::ConfigMutexPoisoned.message(), "The configuration mutex has been poisoned");
    assert_eq!(Error::TimeWentBackwards.message(), "The machine's local time went backwards");
    assert_eq!(Error::TemplateDeployed.message(), "Template servers cannot be deployed");
    assert_eq!(Error::TemplateUsedForTemplate.message(), "Cannot create a template with a template");
}

#[test]
fn messages_name_what_they_are_about() {
    assert_eq!(Error::InvalidServerSession("work".into()).message(), "Invalid server session: `work`");
    assert_eq!(Error::InvalidTimestampFile("a".into()).message(), "Timestamp file (a) is invalid");
    assert_eq!(Error::MissingDirectory { dir: "/srv/a".into() }.message(), "Missing directory: /srv/a");
    assert_eq!(Error::MissingFile { file: "/srv/a/x.jar".into() }.message(), "Missing file: /srv/a/x.jar");
    assert_eq!(Error::PlatformsNotFound("stable loader".into()).message(), "Platforms not found: stable loader");
    assert_eq!(Error::MissingRconConfig("a".into()).message(), "Rcon config is missing for server: a");
    assert_eq!(Error::ServerAlreadyExists("a".into()).message(), "Server a already exists");
    assert_eq!(Error::ServerNotFound("a".into()).message(), "Server a was not found");
    assert_eq!(Error::TemplateAlreadyExists("a".into()).message(), "Template a already exists");
    assert_eq!(Error::TemplateNotFound("a".into()).message(), "Template with the name a was not found");
    assert_eq!(Error::ServerNotFound("".into()).message(), "Server  was not found");
}

#[test]
fn a_failed_command_tells_its_code() {
    assert_eq!(
        Error::CommandFailure { code: Some(2), stderr: None }.message(),
        "Command failed with code 2"
    );
    assert_eq!(
        Error::CommandFailure { code: None, stderr: None }.message(),
        "Command failed with code none"
    );
    assert_eq!(
        Error::CommandFailure { code: Some(0), stderr: None }.message(),
        "Command failed with code 0"
    );
    assert_eq!(
        Error::CommandFailure { code: Some(-1), stderr: None }.message(),
        "Command failed with code -1"
    );
    assert_eq!(
        Error::CommandFailure { code: Some(i32::MIN), stderr: None }.message(),
        "Command failed with code -2147483648"
    );
    assert_eq!(
        Error::CommandFailure { code: Some(i32::MAX), stderr: None }.message(),
        "Command failed with code 2147483647"
    );
}

#[test]
fn a_failed_command_tells_what_it_wrote() {
    assert_eq!(
        Error::CommandFailure { code: Some(1), stderr: Some(b"no such session".to_vec()) }.message(),
        "Command failed with code 1: no such session"
    );
    assert_eq!(
        Error::CommandFailure { code: None, stderr: Some(vec![]) }.message(),
        "Command failed with code none: "
    );
}

#[test]
fn what_a_command_wrote_is_read_lossily() {
    assert_eq!(
        Error::CommandFailure { code: Some(1), stderr: Some(vec![b'a', 0xff, 0xfe, b'b']) }.message(),
        "Command failed with code 1: a\u{fffd}\u{fffd}b"
    );
    assert_eq!(
        Error::CommandFailure { code: Some(1), stderr: Some("größe".as_bytes().to_vec()) }.message(),
        "Command failed with code 1: größe"
    );
}

#[test]
fn a_refused_address_tells_why() {
    let error = parse_download_url("not a url").unwrap_err();
    assert_eq!(error.message(), "relative URL without a base");
    let error = parse_download_url("https://").unwrap_err();
    assert_eq!(error.message(), "empty host");
    assert_eq!(Error::UrlParse("any reason".into()).message(), "any reason");
}

#[test]
fn refusals_are_told_in_the_words_of_the_url_crate() {
    for text in ["", "x", "https://", "https://a:99999999", "https://[::zz]", "https://a b", "//a"] {
        let expected = url::Url::parse(text).unwrap_err().to_string();
        match parse_download_url(text) {
            Err(Error::UrlParse(reason)) => assert_eq!(reason, expected, "{text:?}"),
            other => panic!("unexpected for {text:?}: {:?}", other),
        }
    }
}

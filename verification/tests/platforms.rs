use mcserver::error::Error;
use mcserver::platforms::{
    first_stable, get_fabric, get_paper, get_purpur, latest_paper_version, paper_builds_url,
    parse_download_url, purpur_version_url, requested_version, user_agent, FabricEntry,
    FabricVersions, PaperApplication, Platform,
};

fn entry(version: &str, stable: bool) -> FabricEntry {
    FabricEntry { version: version.to_string(), stable }
}

fn versions() -> FabricVersions {
    FabricVersions {
        game: vec![entry("1.22-rc1", false), entry("1.21.4", true), entry("1.21.3", true)],
        loader: vec![entry("0.17.0-beta", false), entry("0.16.9", true)],
        installer: vec![entry("1.0.1", true), entry("1.0.0", true)],
    }
}

#[test]
fn platforms_are_named_in_lower_case() {
    assert_eq!(Platform::Fabric.name(), "fabric");
    assert_eq!(Platform::Forge.name(), "forge");
    assert_eq!(Platform::Neoforge.name(), "neoforge");
    assert_eq!(Platform::Paper.name(), "paper");
    assert_eq!(Platform::Purpur.name(), "purpur");
}

#[test]
fn forge_and_neoforge_are_not_supported() {
    assert!(Platform::Fabric.is_supported());
    assert!(Platform::Paper.is_supported());
    assert!(Platform::Purpur.is_supported());
    assert!(!Platform::Forge.is_supported());
    assert!(!Platform::Neoforge.is_supported());
}

#[test]
fn platforms_are_ordered_as_declared() {
    assert!(Platform::Fabric < Platform::Forge);
    assert!(Platform::Forge < Platform::Neoforge);
    assert!(Platform::Neoforge < Platform::Paper);
    assert!(Platform::Paper < Platform::Purpur);
    assert_eq!(Platform::Paper, Platform::Paper);
}

#[test]
fn latest_means_no_version() {
    assert_eq!(requested_version(Some("latest".to_string())), None);
    assert_eq!(requested_version(None), None);
    assert_eq!(requested_version(Some("1.21".to_string())), Some("1.21".to_string()));
    assert_eq!(requested_version(Some("Latest".to_string())), Some("Latest".to_string()));
    assert_eq!(requested_version(Some("".to_string())), Some("".to_string()));
}

#[test]
fn the_first_stable_entry_is_found() {
    let v = versions();
    assert_eq!(first_stable(&v.game).unwrap().version, "1.21.4");
    assert_eq!(first_stable(&v.loader).unwrap().version, "0.16.9");
    assert_eq!(first_stable(&v.installer).unwrap().version, "1.0.1");
    assert!(first_stable(&vec![]).is_none());
    assert!(first_stable(&vec![entry("a", false), entry("b", false)]).is_none());
}

#[test]
fn fabric_address_for_the_stable_versions() {
    assert_eq!(
        get_fabric(&versions(), None).unwrap(),
        "https://meta.fabricmc.net/v2/versions/loader/1.21.4/0.16.9/1.0.1/server/jar"
    );
}

#[test]
fn fabric_address_for_a_given_version() {
    assert_eq!(
        get_fabric(&versions(), Some("1.20.1".to_string())).unwrap(),
        "https://meta.fabricmc.net/v2/versions/loader/1.20.1/0.16.9/1.0.1/server/jar"
    );
    let mut v = versions();
    v.game.clear();
    assert_eq!(
        get_fabric(&v, Some("1.20.1".to_string())).unwrap(),
        "https://meta.fabricmc.net/v2/versions/loader/1.20.1/0.16.9/1.0.1/server/jar"
    );
}

#[test]
fn fabric_says_what_is_not_to_be_had() {
    let mut v = versions();
    v.game = vec![entry("x", false)];
    v.loader.clear();
    v.installer.clear();
    match get_fabric(&v, None) {
        Err(Error::PlatformsNotFound(what)) => assert_eq!(what, "stable game version"),
        other => panic!("unexpected: {:?}", other),
    }
    match get_fabric(&v, Some("1.21".to_string())) {
        Err(Error::PlatformsNotFound(what)) => assert_eq!(what, "stable loader"),
        other => panic!("unexpected: {:?}", other),
    }
    v.loader = vec![entry("l", true)];
    match get_fabric(&v, Some("1.21".to_string())) {
        Err(Error::PlatformsNotFound(what)) => assert_eq!(what, "stable installer"),
        other => panic!("unexpected: {:?}", other),
    }
}

#[test]
fn paper_takes_the_last_version_and_the_last_build() {
    let listed = vec!["1.20".to_string(), "1.21".to_string(), "1.21.4".to_string()];
    assert_eq!(latest_paper_version(&listed).unwrap(), "1.21.4");
    assert_eq!(
        paper_builds_url("1.21.4"),
        "https://api.papermc.io/v2/projects/paper/versions/1.21.4/builds"
    );
    let builds = vec![
        PaperApplication { name: "paper-1.21.4-1.jar".to_string(), sha256: "aa".to_string() },
        PaperApplication { name: "paper-1.21.4-2.jar".to_string(), sha256: "bb".to_string() },
    ];
    assert_eq!(
        get_paper(&builds).unwrap(),
        "https://fill-data.papermc.io/v1/objects/bb/paper-1.21.4-2.jar"
    );
}

#[test]
fn paper_without_versions_or_builds_is_not_found() {
    match latest_paper_version(&vec![]) {
        Err(Error::PlatformsNotFound(what)) => assert_eq!(what, "paper version"),
        other => panic!("unexpected: {:?}", other),
    }
    match get_paper(&vec![]) {
        Err(Error::PlatformsNotFound(what)) => assert_eq!(what, "paper build"),
        other => panic!("unexpected: {:?}", other),
    }
}

#[test]
fn purpur_addresses() {
    assert_eq!(purpur_version_url("1.21.4"), "https://api.purpurmc.org/v2/purpur/1.21.4");
    assert_eq!(
        get_purpur("1.21.4", "2416"),
        "https://api.purpurmc.org/v2/purpur/1.21.4/2416/download"
    );
}

#[test]
fn the_user_agent_names_the_contact() {
    assert_eq!(user_agent("mcserver", "0.1.0", "  me@example.org \n"), "mcserver/0.1.0 (contact: me@example.org)");
    assert_eq!(user_agent("a", "b", ""), "a/b (contact: )");
    assert_eq!(user_agent("a", "b", " x y "), "a/b (contact: x y)");
    assert_eq!(user_agent("a", "b", " \t "), "a/b (contact: )");
}

#[test]
fn download_addresses_are_parsed() {
    let url = parse_download_url("https://api.purpurmc.org/v2/purpur/1.21.4/2416/download").unwrap();
    assert_eq!(url.host_str(), Some("api.purpurmc.org"));
    assert_eq!(url.scheme(), "https");
    assert_eq!(url.path(), "/v2/purpur/1.21.4/2416/download");
    assert_eq!(url.as_str(), "https://api.purpurmc.org/v2/purpur/1.21.4/2416/download");
}

#[test]
fn what_is_no_address_is_refused() {
    for text in ["", "not a url", "/relative/path", "https://"] {
        match parse_download_url(text) {
            Err(Error::UrlParse(_)) => {}
            other => panic!("unexpected for {text:?}: {:?}", other),
        }
    }
}

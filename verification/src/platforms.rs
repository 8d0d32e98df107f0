//! The distributions a server can be made of, and the addresses at which
//! their files are found.

use vstd::prelude::*;
use crate::error::Error;
use crate::names::same_text;
use crate::text::{from_chars, push_chars, push_str, to_chars, trim, trim_chars};

verus! {

pub const FABRIC_BASE_API_URL: &'static str = "https://meta.fabricmc.net/v2/versions";

pub const PAPER_BASE_API_URL: &'static str = "https://api.papermc.io/v2/projects/paper";

pub const PAPER_BASE_DOWNLOAD_URL: &'static str = "https://fill-data.papermc.io/v1/objects";

pub const PURPUR_BASE_API_URL: &'static str = "https://api.purpurmc.org/v2/purpur";

/// The version that stands for "whichever is newest".
pub const LATEST: &'static str = "latest";

/// A distribution of the server software.
#[derive(Copy, Clone, PartialEq, Eq, PartialOrd, Ord, Debug, Structural)]
pub enum Platform {
    Fabric,
    Forge,
    Neoforge,
    Paper,
    Purpur,
}

/// The name of a platform, in lower case.
pub open spec fn platform_name(platform: Platform) -> Seq<char> {
    match platform {
        Platform::Fabric => "fabric"@,
        Platform::Forge => "forge"@,
        Platform::Neoforge => "neoforge"@,
        Platform::Paper => "paper"@,
        Platform::Purpur => "purpur"@,
    }
}

impl Platform {
    /// The name of the platform, in lower case.
    pub fn name(&self) -> (name: &'static str)
        ensures
            name@ == platform_name(*self),
    {
        match self {
            Platform::Fabric => "fabric",
            Platform::Forge => "forge",
            Platform::Neoforge => "neoforge",
            Platform::Paper => "paper",
            Platform::Purpur => "purpur",
        }
    }

    /// Whether files of this platform can be resolved: all but Forge and
    /// Neoforge.
    pub fn is_supported(&self) -> (supported: bool)
        ensures
            supported == !(*self is Forge || *self is Neoforge),
    {
        match self {
            Platform::Forge => false,
            Platform::Neoforge => false,
            _ => true,
        }
    }
}

/// The version to resolve: `version`, unless it is absent or stands for the
/// newest, in which case none is asked for.
pub fn requested_version(version: Option<String>) -> (requested: Option<String>)
    ensures
        match version {
            Some(v) => if v@ == LATEST@ {
                requested is None
            } else {
                requested == Some(v)
            },
            None => requested is None,
        },
{
    match version {
        Some(v) => {
            if same_text(v.as_str(), LATEST) {
                None
            } else {
                Some(v)
            }
        },
        None => None,
    }
}

/// One version in a listing of Fabric.
#[derive(Debug)]
pub struct FabricEntry {
    pub version: String,
    pub stable: bool,
}

/// The versions that Fabric lists: of the game, of its loader and of its
/// installer.
#[derive(Debug)]
pub struct FabricVersions {
    pub game: Vec<FabricEntry>,
    pub loader: Vec<FabricEntry>,
    pub installer: Vec<FabricEntry>,
}

/// The index of the first stable entry, or the number of entries if none is
/// stable.
pub open spec fn first_stable_index(entries: Seq<FabricEntry>) -> nat
    decreases entries.len(),
{
    if entries.len() == 0 {
        0
    } else if entries[0].stable {
        0
    } else {
        1 + first_stable_index(entries.drop_first())
    }
}

/// The first entry that is stable, if there is one.
pub fn first_stable(entries: &Vec<FabricEntry>) -> (found: Option<&FabricEntry>)
    ensures
        first_stable_index(entries@) <= entries@.len(),
        match found {
            Some(entry) => first_stable_index(entries@) < entries@.len() && *entry
                == entries@[first_stable_index(entries@) as int] && entry.stable,
            None => first_stable_index(entries@) == entries@.len(),
        },
        forall|i: int| 0 <= i < first_stable_index(entries@) ==> !entries@[i].stable,
{
    let mut i: usize = 0;
    proof {
        assert(entries@.subrange(0, entries@.len() as int) =~= entries@);
    }
    while i < entries.len()
        invariant
            i <= entries.len(),
            first_stable_index(entries@) == i + first_stable_index(
                entries@.subrange(i as int, entries@.len() as int),
            ),
            forall|k: int| 0 <= k < i ==> !entries@[k].stable,
        decreases entries.len() - i,
    {
        let ghost tail = entries@.subrange(i as int, entries@.len() as int);
        assert(tail[0] == entries@[i as int]);
        if entries[i].stable {
            return Some(&entries[i]);
        }
        assert(tail.drop_first() =~= entries@.subrange(i + 1, entries@.len() as int));
        i = i + 1;
    }
    proof {
        assert(entries@.subrange(i as int, entries@.len() as int) =~= Seq::<FabricEntry>::empty());
        lemma_first_stable(entries@);
    }
    None
}

/// No entry before the first stable one is stable.
pub proof fn lemma_first_stable(entries: Seq<FabricEntry>)
    ensures
        first_stable_index(entries) <= entries.len(),
        first_stable_index(entries) < entries.len() ==> entries[first_stable_index(
            entries,
        ) as int].stable,
        forall|i: int| 0 <= i < first_stable_index(entries) ==> !entries[i].stable,
    decreases entries.len(),
{
    if entries.len() > 0 && !entries[0].stable {
        let rest = entries.drop_first();
        lemma_first_stable(rest);
        assert forall|i: int| 0 <= i < first_stable_index(entries) implies !entries[i].stable by {
            if i > 0 {
                assert(rest[i - 1] == entries[i]);
            }
        }
    }
}

/// The address of the Fabric server jar for the given versions.
pub open spec fn fabric_url(game: Seq<char>, loader: Seq<char>, installer: Seq<char>) -> Seq<char> {
    FABRIC_BASE_API_URL@ + "/loader/"@ + game + "/"@ + loader + "/"@ + installer + "/server/jar"@
}

/// The version of the first stable entry, if one is stable.
pub open spec fn stable_version(entries: Seq<FabricEntry>) -> Option<Seq<char>> {
    if first_stable_index(entries) < entries.len() {
        Some(entries[first_stable_index(entries) as int].version@)
    } else {
        None
    }
}

/// What `get_fabric` answers.
pub open spec fn fabric_outcome(
    versions: FabricVersions,
    game_version: Option<Seq<char>>,
    result: Result<String, Error>,
) -> bool {
    let game = match game_version {
        Some(v) => Some(v),
        None => stable_version(versions.game@),
    };
    let loader = stable_version(versions.loader@);
    let installer = stable_version(versions.installer@);
    if game is None {
        result matches Err(Error::PlatformsNotFound(what)) && what@ == "stable game version"@
    } else if loader is None {
        result matches Err(Error::PlatformsNotFound(what)) && what@ == "stable loader"@
    } else if installer is None {
        result matches Err(Error::PlatformsNotFound(what)) && what@ == "stable installer"@
    } else {
        result matches Ok(url) && url@ == fabric_url(
            game->Some_0,
            loader->Some_0,
            installer->Some_0,
        )
    }
}

/// The address of the Fabric server jar: for the given version of the game,
/// or for its first stable version where none is given, with the first stable
/// loader and the first stable installer. Where one of these is not to be had
/// the error says which.
pub fn get_fabric(versions: &FabricVersions, game_version: Option<String>) -> (result: Result<
    String,
    Error,
>)
    ensures
        fabric_outcome(
            *versions,
            match game_version {
                Some(v) => Some(v@),
                None => None,
            },
            result,
        ),
{
    let game: String = match game_version {
        Some(v) => v,
        None => match first_stable(&versions.game) {
            Some(entry) => entry.version.clone(),
            None => {
                return Err(Error::PlatformsNotFound("stable game version".to_owned()));
            },
        },
    };
    let loader = match first_stable(&versions.loader) {
        Some(entry) => entry.version.clone(),
        None => {
            return Err(Error::PlatformsNotFound("stable loader".to_owned()));
        },
    };
    let installer = match first_stable(&versions.installer) {
        Some(entry) => entry.version.clone(),
        None => {
            return Err(Error::PlatformsNotFound("stable installer".to_owned()));
        },
    };
    let mut out: Vec<char> = Vec::new();
    push_str(&mut out, FABRIC_BASE_API_URL);
    push_str(&mut out, "/loader/");
    push_str(&mut out, game.as_str());
    push_str(&mut out, "/");
    push_str(&mut out, loader.as_str());
    push_str(&mut out, "/");
    push_str(&mut out, installer.as_str());
    push_str(&mut out, "/server/jar");
    assert(out@ =~= fabric_url(game@, loader@, installer@));
    Ok(from_chars(&out))
}

/// The file of one build of Paper.
#[derive(Debug)]
pub struct PaperApplication {
    pub name: String,
    pub sha256: String,
}

/// The newest version of Paper: the last that the project lists. Where it
/// lists none, the error says so.
pub fn latest_paper_version(versions: &Vec<String>) -> (result: Result<String, Error>)
    ensures
        versions@.len() > 0 ==> (result matches Ok(v) && v@ == versions@.last()@),
        versions@.len() == 0 ==> (result matches Err(Error::PlatformsNotFound(what)) && what@
            == "paper version"@),
{
    if versions.len() == 0 {
        return Err(Error::PlatformsNotFound("paper version".to_owned()));
    }
    Ok(versions[versions.len() - 1].clone())
}

/// The address that lists the builds of a version of Paper.
pub fn paper_builds_url(version: &str) -> (url: String)
    ensures
        url@ == PAPER_BASE_API_URL@ + "/versions/"@ + version@ + "/builds"@,
{
    let mut out: Vec<char> = Vec::new();
    push_str(&mut out, PAPER_BASE_API_URL);
    push_str(&mut out, "/versions/");
    push_str(&mut out, version);
    push_str(&mut out, "/builds");
    assert(out@ =~= PAPER_BASE_API_URL@ + "/versions/"@ + version@ + "/builds"@);
    from_chars(&out)
}

/// The address of the file of a build of Paper.
pub open spec fn paper_url(application: PaperApplication) -> Seq<char> {
    PAPER_BASE_DOWNLOAD_URL@ + "/"@ + application.sha256@ + "/"@ + application.name@
}

/// The address of the Paper server jar: that of the last of `builds`. Where
/// there is no build, the error says so.
pub fn get_paper(builds: &Vec<PaperApplication>) -> (result: Result<String, Error>)
    ensures
        builds@.len() > 0 ==> (result matches Ok(url) && url@ == paper_url(builds@.last())),
        builds@.len() == 0 ==> (result matches Err(Error::PlatformsNotFound(what)) && what@
            == "paper build"@),
{
    if builds.len() == 0 {
        return Err(Error::PlatformsNotFound("paper build".to_owned()));
    }
    let application = &builds[builds.len() - 1];
    let mut out: Vec<char> = Vec::new();
    push_str(&mut out, PAPER_BASE_DOWNLOAD_URL);
    push_str(&mut out, "/");
    push_str(&mut out, application.sha256.as_str());
    push_str(&mut out, "/");
    push_str(&mut out, application.name.as_str());
    assert(out@ =~= paper_url(builds@.last()));
    Ok(from_chars(&out))
}

/// The address that describes a version of Purpur.
pub fn purpur_version_url(version: &str) -> (url: String)
    ensures
        url@ == PURPUR_BASE_API_URL@ + "/"@ + version@,
{
    let mut out: Vec<char> = Vec::new();
    push_str(&mut out, PURPUR_BASE_API_URL);
    push_str(&mut out, "/");
    push_str(&mut out, version);
    assert(out@ =~= PURPUR_BASE_API_URL@ + "/"@ + version@);
    from_chars(&out)
}

/// The address of the Purpur server jar of the build `latest` of `version`.
pub fn get_purpur(version: &str, latest: &str) -> (url: String)
    ensures
        url@ == PURPUR_BASE_API_URL@ + "/"@ + version@ + "/"@ + latest@ + "/download"@,
{
    let mut out: Vec<char> = Vec::new();
    push_str(&mut out, PURPUR_BASE_API_URL);
    push_str(&mut out, "/");
    push_str(&mut out, version);
    push_str(&mut out, "/");
    push_str(&mut out, latest);
    push_str(&mut out, "/download");
    assert(out@ =~= PURPUR_BASE_API_URL@ + "/"@ + version@ + "/"@ + latest@ + "/download"@);
    from_chars(&out)
}

/// The name by which the tool makes itself known to the platforms: its
/// package and version, and how to reach the operator.
pub fn user_agent(package: &str, version: &str, contact: &str) -> (agent: String)
    ensures
        agent@ == package@ + "/"@ + version@ + " (contact: "@ + trim(contact@) + ")"@,
{
    let mut out: Vec<char> = Vec::new();
    push_str(&mut out, package);
    push_str(&mut out, "/");
    push_str(&mut out, version);
    push_str(&mut out, " (contact: ");
    let chars = to_chars(contact);
    let trimmed = trim_chars(&chars);
    push_chars(&mut out, &trimmed);
    push_str(&mut out, ")");
    assert(out@ =~= package@ + "/"@ + version@ + " (contact: "@ + trim(contact@) + ")"@);
    from_chars(&out)
}

/// A parsed URL of the `url` crate. Nothing is known of what it holds.
#[verifier::external_type_specification]
#[verifier::external_body]
pub struct ExUrl(url::Url);

/// The reason for which the `url` crate refuses a text.
#[verifier::external_type_specification]
#[verifier::external_body]
pub struct ExParseError(url::ParseError);

/// Whether `url::Url::parse` accepts `input` as an absolute URL.
pub uninterp spec fn url_accepts(input: Seq<char>) -> bool;

/// Calls `url::Url::parse`. Its rules fill pages, so the contract only gives
/// its verdict a name: the call succeeds exactly on the texts that
/// `url_accepts` holds of, and the same text always gets the same verdict.
#[verifier::external_body]
fn parse_url(input: &str) -> (result: Result<url::Url, url::ParseError>)
    ensures
        result is Ok <==> url_accepts(input@),
{
    url::Url::parse(input)
}

/// The text in which the `url` crate says why it refused an address: calls
/// `to_string` on its `ParseError`. Nothing is claimed of the text.
#[verifier::external_body]
fn parse_error_text(error: &url::ParseError) -> String {
    error.to_string()
}

/// The parsed form of a download address, or the error of an address that
/// is no valid URL, which carries the reason in the words of the `url` crate.
pub fn parse_download_url(download_url: &str) -> (result: Result<url::Url, Error>)
    ensures
        result is Ok <==> url_accepts(download_url@),
        result is Err ==> (result matches Err(Error::UrlParse(_))),
{
    match parse_url(download_url) {
        Ok(url) => Ok(url),
        Err(e) => Err(Error::UrlParse(parse_error_text(&e))),
    }
}

} // verus!

//! The commands of the tool, and what their flags select.

use vstd::prelude::*;
use crate::platforms::Platform;
use crate::tags::Filter;

verus! {

/// What the operator asked for.
#[derive(Debug)]
pub struct Cli {
    pub command: Commands,
}

/// The commands of the tool.
#[non_exhaustive]
#[allow(inconsistent_fields)]
#[derive(Debug)]
pub enum Commands {
    /// Attach to a server's session.
    Attach { server: Option<String> },
    /// Show the configuration.
    Config { config_type: ConfigType },
    /// Show or set the default server.
    Default { action: DefaultCommands },
    /// Delete the sessions of all servers that have exited.
    DeleteAllSessions { force: bool },
    /// Delete the session of one server.
    DeleteSession { force: bool, session: Option<String> },
    /// Run a server in a new session.
    Deploy { server: Option<String> },
    /// Type commands into a server's session.
    Execute { server: Option<String>, commands: Vec<String> },
    /// List the servers.
    List { active: bool, inactive: bool, dead: bool },
    /// Send commands to a server's remote console.
    Rcon { server: Option<String>, commands: Vec<String> },
    /// Make a new server.
    New { platform: Platform, name: Option<String>, version: Option<String> },
    /// Reinstall the tool.
    Reinstall { from_crate: bool, git: bool, commit: Option<String>, path: Option<String> },
    /// Remove servers.
    Remove { force: bool, servers: Vec<String> },
    /// Restart the server of the surrounding session.
    Restart,
    /// Stop a server.
    Stop { server: Option<String> },
    /// Make or use a template.
    Template { action: TemplateCommands },
    /// Replace a server's jar file.
    Update { server: String, platform: Platform, version: Option<String> },
}

/// Which configuration to show.
#[derive(Debug)]
pub enum ConfigType {
    Static,
    Dynamic,
}

/// What to do with the default server.
#[derive(Debug)]
pub enum DefaultCommands {
    /// Show the default server.
    Get,
    /// Make this server the default.
    Assign { server: String },
}

/// What to do with templates.
#[allow(inconsistent_fields)]
#[derive(Debug)]
pub enum TemplateCommands {
    /// Make a template from a server.
    New { server: String },
    /// Make a server from a template.
    From { template: String, server: Option<String> },
}

/// How a listing is made: which servers it shows, and whether it marks
/// those whose session has exited.
#[derive(Debug, PartialEq, Eq, Clone, Copy, Structural)]
pub struct ListMode {
    pub filter: Filter,
    pub mark_dead: bool,
}

/// The listing that the flags of the list command select. The first of
/// `active`, `inactive` and `dead` that is set decides which servers are
/// shown; with none of them set, all are. The inactive servers are marked as
/// dead only where `dead` is set as well; every other listing that shows
/// dead servers marks them.
pub open spec fn list_mode_of(active: bool, inactive: bool, dead: bool) -> ListMode {
    if active {
        ListMode { filter: Filter::Active, mark_dead: false }
    } else if inactive {
        ListMode { filter: Filter::Inactive, mark_dead: dead }
    } else if dead {
        ListMode { filter: Filter::Dead, mark_dead: true }
    } else {
        ListMode { filter: Filter::All, mark_dead: true }
    }
}

/// The listing that the flags of the list command select.
pub fn list_mode(active: bool, inactive: bool, dead: bool) -> (mode: ListMode)
    ensures
        mode == list_mode_of(active, inactive, dead),
{
    if active {
        ListMode { filter: Filter::Active, mark_dead: false }
    } else if inactive {
        ListMode { filter: Filter::Inactive, mark_dead: dead }
    } else if dead {
        ListMode { filter: Filter::Dead, mark_dead: true }
    } else {
        ListMode { filter: Filter::All, mark_dead: true }
    }
}

/// Where the tool is reinstalled from.
#[derive(Debug)]
pub enum ReinstallSource {
    /// A source tree at this path.
    Path(String),
    /// The repository, at this commit where one is given.
    Git(Option<String>),
    /// The registry.
    Crate,
}

/// The source that the flags of the reinstall command select: a path wins
/// over the repository, the repository over the registry. `None` where no
/// source is selected at all.
pub fn reinstall_source(
    git: bool,
    commit: Option<String>,
    path: Option<String>,
    from_crate: bool,
) -> (source: Option<ReinstallSource>)
    ensures
        match path {
            Some(p) => source == Some(ReinstallSource::Path(p)),
            None => if git {
                source == Some(ReinstallSource::Git(commit))
            } else if from_crate {
                source == Some(ReinstallSource::Crate)
            } else {
                source is None
            },
        },
{
    match path {
        Some(p) => Some(ReinstallSource::Path(p)),
        None => {
            if git {
                Some(ReinstallSource::Git(commit))
            } else if from_crate {
                Some(ReinstallSource::Crate)
            } else {
                None
            }
        },
    }
}

} // verus!

//! The configuration store: one configuration that is loaded once, may be
//! changed, and is written back only if it was changed.

use vstd::prelude::*;
use crate::config_defs::{
    lemma_index_of, same_config, text_view, with_settings, DynamicConfig, DynamicConfigView,
    Password, RconConfig, RconTable,
};
use crate::error::Error;
use crate::names::same_text;

verus! {

fn copy_text(text: &Option<String>) -> (copy: Option<String>)
    ensures
        text_view(copy) == text_view(*text),
{
    match text {
        Some(t) => Some(t.clone()),
        None => None,
    }
}

/// A copy of remote-console settings that says the same.
pub fn copy_rcon(config: &RconConfig) -> (copy: RconConfig)
    ensures
        copy@ == config@,
{
    RconConfig {
        server_address: copy_text(&config.server_address),
        port: config.port,
        password: match &config.password {
            Some(p) => Some(Password(p.0.clone())),
            None => None,
        },
    }
}

/// A copy of a table of remote-console settings that says the same.
pub fn copy_table(table: &RconTable) -> (copy: RconTable)
    ensures
        copy@ == table@,
{
    let mut copy = RconTable::new();
    let mut i: usize = 0;
    let n = table.len();
    proof {
        assert(copy@ =~= table@.subrange(0, 0));
    }
    while i < n
        invariant
            i <= n == table@.len(),
            crate::config_defs::one_entry_each(table@),
            copy@ == table@.subrange(0, i as int),
        decreases table@.len() - i,
    {
        let entry = table.entry(i);
        let ghost before = copy@;
        proof {
            lemma_index_of(before, entry.server@);
            if crate::config_defs::index_of(before, entry.server@) < before.len() {
                let k = crate::config_defs::index_of(before, entry.server@) as int;
                assert(before[k] == table@[k]);
                assert(table@[k].0 != table@[i as int].0);
            }
            assert(with_settings(before, entry.server@, entry.config@) == before.push(entry@));
            assert(before.push(table@[i as int]) =~= table@.subrange(0, i + 1));
        }
        copy.insert(entry.server.clone(), copy_rcon(&entry.config));
        i = i + 1;
    }
    assert(table@.subrange(0, table@.len() as int) =~= table@);
    copy
}

/// A copy of a configuration that says the same.
pub fn copy_config(config: &DynamicConfig) -> (copy: DynamicConfig)
    ensures
        copy@ == config@,
{
    let rcon = match &config.rcon {
        Some(table) => Some(copy_table(table)),
        None => None,
    };
    DynamicConfig {
        default_java_args: config.default_java_args.clone(),
        nogui: config.nogui,
        servers_directory: config.servers_directory.clone(),
        default_server: copy_text(&config.default_server),
        rcon,
    }
}

/// What has to happen to the configuration file when the tool ends.
pub enum WriteAction<'a> {
    /// Nothing: the file is not touched.
    Nothing,
    /// The file is replaced by this configuration.
    Persist(&'a DynamicConfig),
}

/// The store of the configuration: the value in use and, beside it, the
/// value as it was loaded.
pub struct AutoConfig {
    value: Option<DynamicConfig>,
    initial_value: Option<DynamicConfig>,
}

impl AutoConfig {
    /// The value in use, if one was loaded.
    pub closed spec fn value(&self) -> Option<DynamicConfig> {
        self.value
    }

    /// The value as it was loaded, if one was loaded.
    pub closed spec fn initial_value(&self) -> Option<DynamicConfig> {
        self.initial_value
    }

    /// A value was loaded.
    pub open spec fn loaded(&self) -> bool {
        self.value() is Some
    }

    /// The value in use says what the loaded one said.
    pub open spec fn unchanged(&self) -> bool {
        self.value() is Some && self.initial_value() is Some && self.value()->Some_0@
            == self.initial_value()->Some_0@
    }

    /// A store into which nothing was loaded yet.
    pub fn new() -> (store: AutoConfig)
        ensures
            !store.loaded(),
            store.initial_value() is None,
    {
        AutoConfig { value: None, initial_value: None }
    }

    /// Whether a value was loaded.
    pub fn is_loaded(&self) -> (loaded: bool)
        ensures
            loaded == self.loaded(),
    {
        self.value.is_some()
    }

    /// Takes in the configuration that was read from the file, or the
    /// defaults where there was no file. Only the first value counts: once a
    /// value is loaded, a second one changes nothing.
    pub fn load(&mut self, config: DynamicConfig)
        ensures
            old(self).loaded() ==> *final(self) == *old(self),
            !old(self).loaded() ==> final(self).value() == Some(config) && final(self).unchanged(),
    {
        if self.value.is_none() {
            self.initial_value = Some(copy_config(&config));
            self.value = Some(config);
        }
    }

    /// The value in use, if one was loaded.
    pub fn get(&self) -> (config: Option<&DynamicConfig>)
        ensures
            match self.value() {
                Some(v) => config matches Some(c) && *c == v,
                None => config is None,
            },
    {
        match &self.value {
            Some(v) => Some(v),
            None => None,
        }
    }

    /// The default server, if a value was loaded and names one.
    pub fn get_default_server_owned(&self) -> (server: Option<String>)
        ensures
            text_view(server) == match self.value() {
                Some(v) => text_view(v.default_server),
                None => None,
            },
    {
        match &self.value {
            Some(v) => copy_text(&v.default_server),
            None => None,
        }
    }

    /// Makes `server` the default server. Does nothing where no value was
    /// loaded.
    pub fn set_default_server(&mut self, server: String)
        ensures
            final(self).initial_value() == old(self).initial_value(),
            match old(self).value() {
                Some(before) => final(self).value() matches Some(after) && after@
                    == (DynamicConfigView { default_server: Some(server@), ..before@ }),
                None => final(self).value() is None,
            },
    {
        let value = self.value.take();
        match value {
            Some(before) => {
                let DynamicConfig {
                    default_java_args,
                    nogui,
                    servers_directory,
                    default_server: _,
                    rcon,
                } = before;
                self.value = Some(
                    DynamicConfig {
                        default_java_args,
                        nogui,
                        servers_directory,
                        default_server: Some(server),
                        rcon,
                    },
                );
            },
            None => {},
        }
    }

    /// Decides what has to happen to the configuration file when the tool
    /// ends: nothing where no value was loaded, and nothing where the value
    /// in use says what the loaded one said; else the value in use is written.
    pub fn write(&self) -> (action: WriteAction<'_>)
        ensures
            (!self.loaded() || self.unchanged()) ==> action is Nothing,
            (self.loaded() && !self.unchanged()) ==> (action matches WriteAction::Persist(c) && Some(
                *c,
            ) == self.value()),
    {
        let value = match &self.value {
            Some(value) => value,
            None => return WriteAction::Nothing,
        };
        match &self.initial_value {
            Some(initial) => {
                if same_config(initial, value) {
                    return WriteAction::Nothing;
                }
            },
            None => {},
        }
        WriteAction::Persist(value)
    }
}

/// The name under which a server asks for the one in whose directory the
/// tool was called.
pub const CURRENT: &'static str = ".";

/// Which server a given name stands for.
#[derive(Debug)]
pub enum Resolution {
    /// The server of this name.
    Named(String),
    /// The server in whose directory the tool was called.
    Current,
}

/// Reads a server's name as given by the operator: `.` stands for the server
/// in whose directory the tool was called, any other text for itself.
pub fn server_or_current(server: String) -> (resolution: Resolution)
    ensures
        server@ == CURRENT@ ==> resolution is Current,
        server@ != CURRENT@ ==> resolution == Resolution::Named(server),
{
    if same_text(server.as_str(), CURRENT) {
        Resolution::Current
    } else {
        Resolution::Named(server)
    }
}

/// The server to act on: the one given, else the default server; an error
/// where neither is there.
pub fn server_or_default(server: Option<String>, default_server: Option<String>) -> (result: Result<
    String,
    Error,
>)
    ensures
        match server {
            Some(s) => result == Ok::<String, Error>(s),
            None => match default_server {
                Some(d) => result == Ok::<String, Error>(d),
                None => result matches Err(Error::NoDefaultServer),
            },
        },
{
    match server {
        Some(s) => Ok(s),
        None => match default_server {
            Some(d) => Ok(d),
            None => Err(Error::NoDefaultServer),
        },
    }
}

/// The texts of the components of a path, in order.
pub open spec fn component_views(path: Seq<String>) -> Seq<Seq<char>> {
    path.map_values(|c: String| c@)
}

/// The path `path` lies at or below the path `base`: its components begin
/// with those of `base`.
pub open spec fn lies_within(path: Seq<Seq<char>>, base: Seq<Seq<char>>) -> bool {
    base.len() <= path.len() && path.subrange(0, base.len() as int) == base
}

/// The server in whose directory the tool was called, given the components
/// of the servers directory and of the working directory: the first
/// component of the working directory below the servers directory. An error
/// where the working directory does not lie within the servers directory,
/// and where it is the servers directory itself.
pub fn get_current_server_directory(servers_dir: &Vec<String>, current_dir: &Vec<String>) -> (result:
    Result<String, Error>)
    ensures
        !lies_within(component_views(current_dir@), component_views(servers_dir@)) ==> (
        result matches Err(Error::InvalidServersDirectory)),
        lies_within(component_views(current_dir@), component_views(servers_dir@))
            && current_dir@.len() == servers_dir@.len() ==> (result matches Err(
            Error::NoServerChild,
        )),
        lies_within(component_views(current_dir@), component_views(servers_dir@))
            && current_dir@.len() > servers_dir@.len() ==> (result matches Ok(server) && server@
            == current_dir@[servers_dir@.len() as int]@),
{
    let ghost path = component_views(current_dir@);
    let ghost base = component_views(servers_dir@);
    if servers_dir.len() > current_dir.len() {
        return Err(Error::InvalidServersDirectory);
    }
    let mut i: usize = 0;
    while i < servers_dir.len()
        invariant
            i <= servers_dir.len() <= current_dir.len(),
            path == component_views(current_dir@),
            base == component_views(servers_dir@),
            forall|k: int| 0 <= k < i ==> path[k] == base[k],
        decreases servers_dir.len() - i,
    {
        assert(path[i as int] == current_dir@[i as int]@);
        assert(base[i as int] == servers_dir@[i as int]@);
        if !same_text(current_dir[i].as_str(), servers_dir[i].as_str()) {
            assert(path.subrange(0, base.len() as int)[i as int] != base[i as int]);
            return Err(Error::InvalidServersDirectory);
        }
        i = i + 1;
    }
    assert(path.subrange(0, base.len() as int) =~= base);
    if current_dir.len() == servers_dir.len() {
        return Err(Error::NoServerChild);
    }
    Ok(current_dir[servers_dir.len()].clone())
}

} // verus!

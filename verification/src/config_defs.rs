//! The shapes of the configuration.

use vstd::prelude::*;
use crate::names::same_text;

verus! {

/// The types in which the text of a static setting can be held.
pub trait AllowedConfigValue {

}

impl AllowedConfigValue for String {

}

impl AllowedConfigValue for &'static str {

}

/// The settings that are fixed when the tool is built.
#[derive(Debug)]
pub struct StaticConfig<T = &'static str> where T: AllowedConfigValue {
    /// How to reach the operator; sent along with requests.
    pub contact: T,
    /// The directory of the dynamic configuration, before expansion.
    pub dynamic_config_path: T,
}

/// A secret. It has no debug form, so that it is never printed by accident.
#[derive(PartialEq)]
pub struct Password(pub String);

impl Password {
    /// What is shown in place of the secret.
    pub fn shown(&self) -> (text: &'static str)
        ensures
            text@ == "(hidden)"@,
    {
        "(hidden)"
    }
}

/// How to reach the remote console of one server.
#[derive(PartialEq)]
pub struct RconConfig {
    pub server_address: Option<String>,
    pub port: Option<u16>,
    pub password: Option<Password>,
}

/// The remote-console settings of one server, by its name.
#[derive(PartialEq)]
pub struct RconEntry {
    pub server: String,
    pub config: RconConfig,
}

/// The remote-console settings of the servers: at most one entry for each
/// server, kept in the order in which the servers were first entered.
#[derive(PartialEq)]
pub struct RconTable {
    entries: Vec<RconEntry>,
}

/// The settings that can change while the tool is in use.
#[derive(PartialEq)]
pub struct DynamicConfig {
    pub default_java_args: String,
    pub nogui: bool,
    pub servers_directory: String,
    pub default_server: Option<String>,
    /// The remote-console settings of the servers that have any.
    pub rcon: Option<RconTable>,
}

/// What a `RconConfig` says.
pub struct RconConfigView {
    pub server_address: Option<Seq<char>>,
    pub port: Option<u16>,
    pub password: Option<Seq<char>>,
}

/// What a `DynamicConfig` says.
pub struct DynamicConfigView {
    pub default_java_args: Seq<char>,
    pub nogui: bool,
    pub servers_directory: Seq<char>,
    pub default_server: Option<Seq<char>>,
    pub rcon: Option<Seq<(Seq<char>, RconConfigView)>>,
}

/// The text of a string that may be absent.
pub open spec fn text_view(text: Option<String>) -> Option<Seq<char>> {
    match text {
        Some(t) => Some(t@),
        None => None,
    }
}

impl View for RconConfig {
    type V = RconConfigView;

    open spec fn view(&self) -> RconConfigView {
        RconConfigView {
            server_address: text_view(self.server_address),
            port: self.port,
            password: match self.password {
                Some(p) => Some(p.0@),
                None => None,
            },
        }
    }
}

impl View for RconEntry {
    type V = (Seq<char>, RconConfigView);

    open spec fn view(&self) -> (Seq<char>, RconConfigView) {
        (self.server@, self.config@)
    }
}

impl View for DynamicConfig {
    type V = DynamicConfigView;

    open spec fn view(&self) -> DynamicConfigView {
        DynamicConfigView {
            default_java_args: self.default_java_args@,
            nogui: self.nogui,
            servers_directory: self.servers_directory@,
            default_server: text_view(self.default_server),
            rcon: match self.rcon {
                Some(table) => Some(table@),
                None => None,
            },
        }
    }
}

/// The index of the first entry of `server` in `table`, or the number of
/// its entries if `server` has none.
pub open spec fn index_of(table: Seq<(Seq<char>, RconConfigView)>, server: Seq<char>) -> nat
    decreases table.len(),
{
    if table.len() == 0 {
        0
    } else if table[0].0 == server {
        0
    } else {
        1 + index_of(table.drop_first(), server)
    }
}

/// The settings that `table` holds for `server`, if it holds any.
pub open spec fn settings_of(table: Seq<(Seq<char>, RconConfigView)>, server: Seq<char>) -> Option<
    RconConfigView,
> {
    if index_of(table, server) < table.len() {
        Some(table[index_of(table, server) as int].1)
    } else {
        None
    }
}

/// `table` with the settings `config` for `server`: in place of the entry
/// that `server` had, or as a new entry at the end if it had none.
pub open spec fn with_settings(
    table: Seq<(Seq<char>, RconConfigView)>,
    server: Seq<char>,
    config: RconConfigView,
) -> Seq<(Seq<char>, RconConfigView)> {
    if index_of(table, server) < table.len() {
        table.update(index_of(table, server) as int, (server, config))
    } else {
        table.push((server, config))
    }
}

/// No server has two entries in `table`.
pub open spec fn one_entry_each(table: Seq<(Seq<char>, RconConfigView)>) -> bool {
    forall|i: int, j: int| 0 <= i < j < table.len() ==> (#[trigger] table[i]).0 != (#[trigger] table[j]).0
}

/// `index_of` is the least index that holds an entry of `server`.
pub proof fn lemma_index_of(table: Seq<(Seq<char>, RconConfigView)>, server: Seq<char>)
    ensures
        index_of(table, server) <= table.len(),
        index_of(table, server) < table.len() ==> table[index_of(table, server) as int].0
            == server,
        forall|k: int| 0 <= k < index_of(table, server) ==> (#[trigger] table[k]).0 != server,
    decreases table.len(),
{
    if table.len() > 0 && table[0].0 != server {
        let rest = table.drop_first();
        lemma_index_of(rest, server);
        assert forall|k: int| 0 <= k < index_of(table, server) implies (#[trigger] table[k]).0
            != server by {
            if k > 0 {
                assert(rest[k - 1] == table[k]);
            }
        }
    }
}

impl View for RconTable {
    type V = Seq<(Seq<char>, RconConfigView)>;

    closed spec fn view(&self) -> Seq<(Seq<char>, RconConfigView)> {
        self.entries@.map_values(|e: RconEntry| e@)
    }
}

impl RconTable {
    #[verifier::type_invariant]
    spec fn inv(self) -> bool {
        one_entry_each(self@)
    }

    /// A table without entries.
    pub fn new() -> (table: RconTable)
        ensures
            table@.len() == 0,
    {
        let table = RconTable { entries: Vec::new() };
        assert(table@.len() == 0);
        table
    }

    /// The number of entries. No server has two of them.
    pub fn len(&self) -> (n: usize)
        ensures
            n == self@.len(),
            one_entry_each(self@),
    {
        proof {
            use_type_invariant(self);
        }
        self.entries.len()
    }

    /// The entry at index `i`.
    pub fn entry(&self, i: usize) -> (entry: &RconEntry)
        requires
            i < self@.len(),
        ensures
            entry@ == self@[i as int],
    {
        &self.entries[i]
    }

    fn position(&self, server: &str) -> (i: usize)
        ensures
            i == index_of(self@, server@),
            i <= self@.len(),
    {
        let ghost table = self@;
        let mut i: usize = 0;
        proof {
            assert(table.subrange(0, table.len() as int) =~= table);
        }
        while i < self.entries.len()
            invariant
                i <= self.entries.len(),
                table == self@,
                table.len() == self.entries@.len(),
                index_of(table, server@) == i + index_of(
                    table.subrange(i as int, table.len() as int),
                    server@,
                ),
            decreases self.entries.len() - i,
        {
            let ghost tail = table.subrange(i as int, table.len() as int);
            assert(tail[0] == table[i as int]);
            assert(table[i as int] == self.entries@[i as int]@);
            if same_text(self.entries[i].server.as_str(), server) {
                return i;
            }
            assert(tail.drop_first() =~= table.subrange(i + 1, table.len() as int));
            i = i + 1;
        }
        proof {
            assert(table.subrange(i as int, table.len() as int) =~= Seq::<
                (Seq<char>, RconConfigView),
            >::empty());
        }
        i
    }

    /// The settings of `server`, if the table holds any.
    pub fn get(&self, server: &str) -> (found: Option<&RconConfig>)
        ensures
            match found {
                Some(config) => settings_of(self@, server@) == Some(config@),
                None => settings_of(self@, server@) is None,
            },
    {
        let i = self.position(server);
        if i < self.entries.len() {
            assert(self@[i as int] == self.entries@[i as int]@);
            Some(&self.entries[i].config)
        } else {
            None
        }
    }

    /// Enters the settings `config` for `server`: in place of those that
    /// `server` had, or as a new entry at the end if it had none.
    pub fn insert(&mut self, server: String, config: RconConfig)
        ensures
            final(self)@ == with_settings(old(self)@, server@, config@),
    {
        proof {
            use_type_invariant(&*self);
            lemma_index_of(self@, server@);
        }
        let ghost before = self@;
        let i = self.position(server.as_str());
        let mut taken = RconTable { entries: Vec::new() };
        core::mem::swap(self, &mut taken);
        let RconTable { entries } = taken;
        let mut entries = entries;
        let entry = RconEntry { server, config };
        if i < entries.len() {
            entries.set(i, entry);
            proof {
                let after = entries@.map_values(|e: RconEntry| e@);
                assert(after =~= before.update(i as int, entry@));
                assert forall|x: int, y: int| 0 <= x < y < after.len() implies (
                #[trigger] after[x]).0 != (#[trigger] after[y]).0 by {
                    assert(before[x].0 != before[y].0);
                }
            }
        } else {
            entries.push(entry);
            proof {
                let after = entries@.map_values(|e: RconEntry| e@);
                assert(after =~= before.push(entry@));
                assert forall|x: int, y: int| 0 <= x < y < after.len() implies (
                #[trigger] after[x]).0 != (#[trigger] after[y]).0 by {
                    if y < before.len() {
                        assert(before[x].0 != before[y].0);
                    } else {
                        assert(before[x].0 != entry@.0);
                    }
                }
            }
        }
        *self = RconTable { entries };
    }
}

fn same_optional_text(a: &Option<String>, b: &Option<String>) -> (same: bool)
    ensures
        same == (text_view(*a) == text_view(*b)),
{
    match (a, b) {
        (Some(x), Some(y)) => same_text(x.as_str(), y.as_str()),
        (None, None) => true,
        _ => false,
    }
}

/// Whether two remote-console settings say the same.
pub fn same_rcon(a: &RconConfig, b: &RconConfig) -> (same: bool)
    ensures
        same == (a@ == b@),
{
    let passwords = match (&a.password, &b.password) {
        (Some(x), Some(y)) => same_text(x.0.as_str(), y.0.as_str()),
        (None, None) => true,
        _ => false,
    };
    let ports = match (a.port, b.port) {
        (Some(x), Some(y)) => x == y,
        (None, None) => true,
        _ => false,
    };
    same_optional_text(&a.server_address, &b.server_address) && ports && passwords
}

fn same_entries(a: &RconTable, b: &RconTable) -> (same: bool)
    ensures
        same == (a@ == b@),
{
    if a.len() != b.len() {
        return false;
    }
    let mut i: usize = 0;
    while i < a.len()
        invariant
            i <= a@.len(),
            a@.len() == b@.len(),
            forall|k: int| 0 <= k < i ==> a@[k] == b@[k],
        decreases a@.len() - i,
    {
        let x = a.entry(i);
        let y = b.entry(i);
        if !same_text(x.server.as_str(), y.server.as_str()) || !same_rcon(&x.config, &y.config) {
            return false;
        }
        i = i + 1;
    }
    assert(a@ =~= b@);
    true
}

/// Whether two configurations say the same.
pub fn same_config(a: &DynamicConfig, b: &DynamicConfig) -> (same: bool)
    ensures
        same == (a@ == b@),
{
    let rcon = match (&a.rcon, &b.rcon) {
        (Some(x), Some(y)) => same_entries(x, y),
        (None, None) => true,
        _ => false,
    };
    same_text(a.default_java_args.as_str(), b.default_java_args.as_str()) && a.nogui == b.nogui
        && same_text(a.servers_directory.as_str(), b.servers_directory.as_str())
        && same_optional_text(&a.default_server, &b.default_server) && rcon
}

} // verus!

//! The remote console: the arguments with which its client is called.

use vstd::prelude::*;
use crate::config_defs::{settings_of, DynamicConfig, RconConfigView};
use crate::error::Error;
use crate::session::arg_views;
use crate::text::{decimal, from_chars, push_decimal};

verus! {

/// The client of the remote console.
pub const RCON_COMMAND: &'static str = "mcrcon";

/// The arguments that tell the client where and how to connect: the address
/// after `-H`, the port after `-P`, the password after `-p`, each only where
/// it is configured.
pub open spec fn connection_args(config: RconConfigView) -> Seq<Seq<char>> {
    let address = match config.server_address {
        Some(a) => seq!["-H"@, a],
        None => Seq::empty(),
    };
    let port = match config.port {
        Some(p) => seq!["-P"@, decimal(p as nat)],
        None => Seq::empty(),
    };
    let password = match config.password {
        Some(p) => seq!["-p"@, p],
        None => Seq::empty(),
    };
    address + port + password
}

/// What `run` answers.
pub open spec fn run_outcome(
    config: DynamicConfig,
    server: Seq<char>,
    commands: Seq<String>,
    result: Result<Vec<String>, Error>,
) -> bool {
    match config.rcon {
        None => result matches Err(Error::NoRconConfig),
        Some(table) => match settings_of(table@, server) {
            None => result matches Err(Error::MissingRconConfig(n)) && n@ == server,
            Some(settings) => result matches Ok(args) && arg_views(args@) == connection_args(
                settings,
            ) + arg_views(commands),
        },
    }
}

/// The arguments with which the client of the remote console is called to
/// send `commands` to `server`: how to connect, then the commands. An error
/// where no remote-console settings are configured, and where `server` has
/// none.
pub fn run(config: &DynamicConfig, server: &str, commands: &Vec<String>) -> (result: Result<
    Vec<String>,
    Error,
>)
    ensures
        run_outcome(*config, server@, commands@, result),
{
    let table = match &config.rcon {
        Some(table) => table,
        None => return Err(Error::NoRconConfig),
    };
    let settings = match table.get(server) {
        Some(settings) => settings,
        None => return Err(Error::MissingRconConfig(server.to_owned())),
    };
    let mut args: Vec<String> = Vec::new();
    match &settings.server_address {
        Some(address) => {
            args.push("-H".to_owned());
            args.push(address.clone());
        },
        None => {},
    }
    match settings.port {
        Some(port) => {
            args.push("-P".to_owned());
            let mut digits: Vec<char> = Vec::new();
            push_decimal(&mut digits, port as u128);
            assert(digits@ =~= decimal(port as nat));
            args.push(from_chars(&digits));
        },
        None => {},
    }
    match &settings.password {
        Some(password) => {
            args.push("-p".to_owned());
            args.push(password.0.clone());
        },
        None => {},
    }
    assert(arg_views(args@) =~= connection_args(settings@));
    let mut i: usize = 0;
    while i < commands.len()
        invariant
            i <= commands.len(),
            arg_views(args@) == connection_args(settings@) + arg_views(
                commands@.subrange(0, i as int),
            ),
        decreases commands.len() - i,
    {
        let ghost before = arg_views(args@);
        args.push(commands[i].clone());
        assert(arg_views(args@) =~= before.push(commands@[i as int]@));
        assert(arg_views(commands@.subrange(0, i + 1)) =~= arg_views(
            commands@.subrange(0, i as int),
        ).push(commands@[i as int]@));
        i = i + 1;
    }
    assert(commands@.subrange(0, commands@.len() as int) =~= commands@);
    Ok(args)
}

} // verus!

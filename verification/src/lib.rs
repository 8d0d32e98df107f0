//! Fleet state engine for a directory-backed fleet of game-server instances.
//!
//! Every function here computes on plain values. Reading directories, running
//! the session multiplexer and talking to the network are left to the caller,
//! which hands the results in and carries the returned decisions out.

pub mod cli;
pub mod config;
pub mod config_defs;
pub mod error;
pub mod last_used;
pub mod names;
pub mod naming;
pub mod platforms;
pub mod rcon;
pub mod reinstaller;
pub mod server;
pub mod session;
pub mod tags;
pub mod text;

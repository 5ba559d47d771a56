//! Grouped workspaces for a tiling window manager.
//!
//! A workspace name is a single delimited string that carries up to three
//! components: the window manager's own numeric id, a group name, and a
//! slot number that is unique only within its group.  This crate holds the
//! codec between names and typed identifiers, the registry views over a
//! snapshot of the window manager's workspaces, the renumbering engine that
//! keeps numeric ids collision-free, the group operations built on those,
//! and the per-group last-visited history.  All decisions are made here, on
//! plain values; talking to the window manager itself is left to the caller.

pub mod commands;
pub mod config;
pub mod dec;
pub mod events;
pub mod fields;
pub mod history;
pub mod ops;
pub mod order;
pub mod registry;
pub mod renumber;
pub mod roundtrip;
pub mod workspace_id;

use vstd::prelude::*;

verus! {

/// The error kinds that operations report.
#[derive(Debug)]
pub enum Error {
    /// The window manager cannot be reached.
    Connection(String),
    /// An expected workspace, group or focused record is absent.
    NotFound(String),
    /// The window manager refused a command.
    CommandRejected(String),
    /// The history store could not be read or written.
    Persistence(String),
}

impl Error {
    /// A human-readable description of the error.
    pub fn message(&self) -> (r: String)
        ensures
            match self {
                Error::Connection(m) => r@ == m@,
                Error::NotFound(m) => r@ == m@,
                Error::CommandRejected(m) => r@ == m@,
                Error::Persistence(m) => r@ == m@,
            },
    {
        match self {
            Error::Connection(m) => m.clone(),
            Error::NotFound(m) => m.clone(),
            Error::CommandRejected(m) => m.clone(),
            Error::Persistence(m) => m.clone(),
        }
    }
}

} // verus!

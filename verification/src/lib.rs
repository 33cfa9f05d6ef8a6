//! Core of a line-oriented chat relay: a registry of active usernames and
//! their delivery handles, username validation, message rendering, and the
//! per-session protocol steps that turn incoming lines into delivery plans.
//! The surrounding program performs the socket I/O; everything that decides
//! what is sent, to whom, lives here.

use vstd::prelude::*;

pub mod bytes;
pub mod codec;
pub mod messages;
pub mod prime;
pub mod registry;
pub mod session;

verus! {

/// The error taxonomy of the relay. An error is local to the session that
/// caused it: it never reaches other sessions.
#[derive(Debug, Clone, Copy, PartialEq, Eq, Structural)]
pub enum ChatErr {
    /// An I/O fault on the session's own socket.
    NetworkFailure,
    /// The requested username is empty or longer than 20 bytes after trimming.
    InvalidUsername,
    /// The requested username is already registered to an active session.
    UsernameTaken,
}

} // verus!

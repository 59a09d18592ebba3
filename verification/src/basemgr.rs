//! Session-manager facade types: the commands the facade accepts and the
//! results it reports.

use crate::text::str_eq;
use vstd::prelude::*;

verus! {

/// The commands the session-manager facade supports.
#[derive(Debug, Clone, Copy, PartialEq, Eq, Structural)]
pub enum BaseManagerMethod {
    RestartSession,
    StartBasemgr,
    KillBasemgr,
}

/// A method name that names no facade command.
#[derive(Debug, Clone, Copy, PartialEq, Eq, Structural)]
pub struct InvalidMethodError;

impl core::str::FromStr for BaseManagerMethod {
    type Err = InvalidMethodError;

    fn from_str(method: &str) -> Result<Self, Self::Err> {
        if str_eq(method, "RestartSession") {
            Ok(BaseManagerMethod::RestartSession)
        } else if str_eq(method, "StartBasemgr") {
            Ok(BaseManagerMethod::StartBasemgr)
        } else if str_eq(method, "KillBasemgr") {
            Ok(BaseManagerMethod::KillBasemgr)
        } else {
            Err(InvalidMethodError)
        }
    }
}

/// Result of restarting a session.
#[derive(Debug, Clone, Copy, PartialEq, Eq, Structural)]
pub enum RestartSessionResult {
    Success,
    NoSessionToRestart,
}

/// Result of starting the session manager.
#[derive(Debug, Clone, Copy, PartialEq, Eq, Structural)]
pub enum StartBasemgrResult {
    Success,
    Fail,
}

/// Result of killing the session manager.
#[derive(Debug, Clone, Copy, PartialEq, Eq, Structural)]
pub enum KillBasemgrResult {
    Success,
    NoBasemgrToKill,
}

} // verus!

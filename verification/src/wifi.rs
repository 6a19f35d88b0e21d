//! Decisions of the connection task.
//!
//! The wireless association itself is the network collaborator's; what
//! is decided here is which connectivity state each association outcome
//! pushes (last value wins) and when the task backs off before retrying.

use vstd::prelude::*;
use crate::compositor::SystemState;

verus! {

/// How long the connection task waits before retrying after a loss or a
/// failed association, in milliseconds.
pub const CONNECT_RETRY_DELAY_MS: u64 = 5000;

/// One outcome of the association loop.
#[derive(Debug, Clone, Copy, PartialEq, Eq, Structural)]
pub enum ConnectionEvent {
    /// The link was lost after being connected
    LinkLost,
    /// An association attempt succeeded
    Associated,
    /// An association attempt failed
    AssociationFailed,
}

/// The connectivity state each association outcome pushes.
pub fn connection_signal(event: &ConnectionEvent) -> (s: SystemState)
    ensures
        event is LinkLost ==> s is Disconnected,
        event is Associated ==> s is WIFIConnected,
        event is AssociationFailed ==> s is Failed,
{
    match event {
        ConnectionEvent::LinkLost => SystemState::Disconnected,
        ConnectionEvent::Associated => SystemState::WIFIConnected,
        ConnectionEvent::AssociationFailed => SystemState::Failed,
    }
}

/// How long to back off after an outcome: losses and failures wait the
/// retry delay, a successful association proceeds at once.
pub fn connection_backoff(event: &ConnectionEvent) -> (d: Option<u64>)
    ensures
        event is LinkLost ==> d == Some(CONNECT_RETRY_DELAY_MS),
        event is AssociationFailed ==> d == Some(CONNECT_RETRY_DELAY_MS),
        event is Associated ==> d is None,
{
    match event {
        ConnectionEvent::LinkLost => Some(CONNECT_RETRY_DELAY_MS),
        ConnectionEvent::AssociationFailed => Some(CONNECT_RETRY_DELAY_MS),
        ConnectionEvent::Associated => None,
    }
}

} // verus!

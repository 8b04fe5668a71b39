//! The states of a session.

use vstd::prelude::*;

verus! {

/// Where a session with a peer stands.
#[derive(PartialEq, Eq, Debug, Clone, Copy, Hash, Structural)]
pub enum State {
    Idle,
    Connect,
    OpenSent,
    OpenConfirm,
    Established,
}

} // verus!

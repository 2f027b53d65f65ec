//! L2CAP sockets on Linux.
use crate::error::{BlewError, BlewResult};
use crate::l2cap::types::{L2capEncryption, Psm};
use crate::types::DeviceId;
use vstd::prelude::*;

verus! {

/// The security levels of a Linux L2CAP socket.
#[derive(Debug, Clone, Copy, PartialEq, Eq, Structural)]
pub enum SecurityLevel {
    Low,
    Medium,
    High,
}

impl SecurityLevel {
    /// The strongest requirement that the level enforces.
    pub open spec fn strength(self) -> int {
        match self {
            SecurityLevel::Low => 0,
            SecurityLevel::Medium => 1,
            SecurityLevel::High => 2,
        }
    }
}

/// The security applied to a socket before it is bound or connected.
#[derive(Debug, Clone, Copy, PartialEq, Eq, Structural)]
pub struct SocketSecurity {
    pub level: SecurityLevel,
    /// The minimum encryption key length; zero leaves it to the kernel.
    pub key_size: u8,
}

/// The largest receive MTU, advertised so that the peer can send big PDUs.
pub const RECV_MTU: u16 = 65535;

/// How many connections may wait to be accepted by the kernel.
pub const LISTEN_BACKLOG: u32 = 1;

/// How many accepted channels may wait for the application.
pub const ACCEPT_QUEUE: usize = 16;

/// The `BT_SECURITY` setting for a freshly created L2CAP socket.
///
/// `Low` deliberately keeps BlueZ from triggering a pairing request; the
/// stronger levels will.
pub fn socket_security(encryption: L2capEncryption) -> (security: SocketSecurity)
    ensures
        security.key_size == 0,
        security.level == (match encryption {
            L2capEncryption::Insecure => SecurityLevel::Low,
            L2capEncryption::RequireEncryption => SecurityLevel::Medium,
            L2capEncryption::RequireAuthentication => SecurityLevel::High,
        }),
        security.level.strength() == encryption.strength(),
{
    let level = match encryption {
        L2capEncryption::Insecure => SecurityLevel::Low,
        L2capEncryption::RequireEncryption => SecurityLevel::Medium,
        L2capEncryption::RequireAuthentication => SecurityLevel::High,
    };
    SocketSecurity { level, key_size: 0 }
}

/// How a listener is set up.
#[derive(Debug, Clone, Copy, PartialEq, Eq, Structural)]
pub struct ListenerPlan {
    /// Applied before the socket is bound, rather than left to BlueZ's default.
    pub security: SocketSecurity,
    pub recv_mtu: u16,
    pub backlog: u32,
    /// How many accepted channels may wait for the application.
    pub queue: usize,
}

/// How a listener that demands `encryption` is set up.
pub fn bind_l2cap_listener(encryption: L2capEncryption) -> (plan: ListenerPlan)
    ensures
        plan.security.key_size == 0,
        plan.security.level.strength() == encryption.strength(),
        plan.recv_mtu == RECV_MTU,
        plan.backlog == LISTEN_BACKLOG,
        plan.queue == ACCEPT_QUEUE,
{
    ListenerPlan {
        security: socket_security(encryption),
        recv_mtu: RECV_MTU,
        backlog: LISTEN_BACKLOG,
        queue: ACCEPT_QUEUE,
    }
}

/// What binding a listener came to: its PSM, or why it failed, in the words of
/// the step that did.
pub fn bound(outcome: Result<u16, String>) -> (result: BlewResult<Psm>)
    ensures
        match outcome {
            Ok(psm) => result == Ok::<Psm, BlewError>(Psm(psm)),
            Err(source) => result matches Err(e) && e@ == (crate::error::ErrorView::L2cap {
                source: source@,
            }),
        },
{
    match outcome {
        Ok(psm) => Ok(Psm(psm)),
        Err(source) => Err(BlewError::L2cap { source }),
    }
}

/// What a listener hands to the application: an accepted channel with its
/// peer, or the error that ended the listener.
pub fn accepted<C>(outcome: Result<(String, C), String>) -> (item: BlewResult<(DeviceId, C)>)
    ensures
        match outcome {
            Ok((peer, channel)) => item matches Ok((id, c)) && id@ == peer@ && c == channel,
            Err(source) => item matches Err(e) && e@ == (crate::error::ErrorView::L2cap {
                source: source@,
            }),
        },
{
    match outcome {
        Ok((peer, channel)) => Ok((DeviceId::from(peer), channel)),
        Err(source) => Err(BlewError::L2cap { source }),
    }
}

/// Whether a listener accepts again: after an error, and once the application
/// has stopped taking channels, it does not.
pub fn accepts_again(failed: bool, taken: bool) -> (again: bool)
    ensures
        again == (!failed && taken),
{
    !failed && taken
}

/// The levels of a socket are in the order of what they enforce.
pub proof fn law_levels_are_ordered()
    ensures
        SecurityLevel::Low.strength() < SecurityLevel::Medium.strength(),
        SecurityLevel::Medium.strength() < SecurityLevel::High.strength(),
        SecurityLevel::Low.strength() == L2capEncryption::Insecure.strength(),
        SecurityLevel::High.strength() == L2capEncryption::RequireAuthentication.strength(),
{
}

} // verus!

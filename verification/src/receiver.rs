//! The upstream receiver's decisions: it reads replies on a session's
//! upstream socket with a timeout and either forwards them toward the
//! client, keeps waiting, or terminates once the session is evicted.
use vstd::prelude::*;

use crate::identity::ClientIdentity;
use crate::egress::PendingEgress;
use crate::RECEIVER_MARGIN_MILLIS;
use crate::ROUND_MILLIS;

verus! {

/// What the upstream receiver does after one read attempt.
#[derive(Clone, Copy, PartialEq, Eq, Structural, Debug)]
pub enum ReceiverAction {
    /// A reply arrived: package it and push it onto the egress queue.
    ForwardToClient,
    /// The read timed out but the session is still live: wait again.
    KeepWaiting,
    /// The read timed out and the session was evicted: terminate.
    Terminate,
}

/// The upstream receiver's decision after one socket read attempt: a
/// received reply is always forwarded; on a read timeout the receiver
/// terminates exactly when the session's eviction flag is set, and
/// keeps waiting otherwise.
pub fn receiver_step(evicted: bool, got_reply: bool) -> (r: ReceiverAction)
    ensures
        got_reply ==> r == ReceiverAction::ForwardToClient,
        !got_reply && evicted ==> r == ReceiverAction::Terminate,
        !got_reply && !evicted ==> r == ReceiverAction::KeepWaiting,
{
    if got_reply {
        ReceiverAction::ForwardToClient
    } else if evicted {
        ReceiverAction::Terminate
    } else {
        ReceiverAction::KeepWaiting
    }
}

/// Packages one upstream reply for egress: the originating client's
/// identity and the reply payload, byte for byte.
pub fn package_reply(identity: ClientIdentity, payload: Vec<u8>) -> (r: PendingEgress)
    ensures
        r.identity == identity,
        r.payload@ == payload@,
{
    PendingEgress { identity, payload }
}

/// The read timeout of a session's upstream receiver: one idle round
/// plus a margin, so the receiver always observes the eviction flag
/// shortly after the forwarder sets it, without livelocking against
/// the forwarder's own rounds.
pub fn receiver_read_timeout_millis() -> (r: u64)
    ensures
        r == ROUND_MILLIS + RECEIVER_MARGIN_MILLIS,
{
    ROUND_MILLIS + RECEIVER_MARGIN_MILLIS
}

} // verus!

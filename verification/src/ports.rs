//! Ephemeral upstream port selection for new sessions.
use vstd::prelude::*;

verus! {

/// Relies on rand::random::<u16>: a uniformly drawn 16-bit value.
/// Nothing is promised of the value itself.
#[verifier::external_body]
fn random_u16() -> u16 {
    rand::random::<u16>()
}

/// Smallest port a session's upstream socket may use; ports below it
/// are reserved.
pub const EPHEMERAL_PORT_FLOOR: u32 = 1024;

/// Draws a candidate local port for a new session's upstream-facing
/// socket: a random offset above the reserved range. The draw is
/// random, so only its range is known.
pub fn draw_ephemeral_port() -> (p: u32)
    ensures
        EPHEMERAL_PORT_FLOOR <= p <= EPHEMERAL_PORT_FLOOR + u16::MAX,
{
    let r = random_u16();
    EPHEMERAL_PORT_FLOOR + (r as u32)
}

} // verus!

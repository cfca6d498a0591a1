//! A connectionless UDP relay core: per-client session lifecycle,
//! idle-timeout eviction, and race-safe dispatch of datagrams.
//!
//! The modules here hold the verified decision logic of the relay:
//! the session table and ingress dispatcher, the per-session
//! forwarder state machine, the upstream receiver's decisions, and
//! the egress queue that routes replies back to their clients.
//! Socket and thread plumbing lives outside the library and drives
//! these functions with the events it observes.
use vstd::prelude::*;

mod identity;
mod config;
mod egress;
mod ports;
mod receiver;
mod session;
mod table;

pub use identity::ClientIdentity;
pub use identity::IpModel;
pub use config::Config;
pub use config::ConfigError;
pub use config::default_bind;
pub use session::Session;
pub use session::rounds_after;
pub use session::lemma_rounds_progress;
pub use session::lemma_idle_budget_evicts;
pub use session::lemma_forwarded_prefix_of_accepted;
pub use ports::draw_ephemeral_port;
pub use ports::EPHEMERAL_PORT_FLOOR;
pub use table::SessionTable;
pub use table::DispatchOutcome;
pub use table::lemma_replacement_is_fresh;
pub use table::lemma_table_session_wf;
pub use table::lemma_client_to_upstream_order;
pub use egress::PendingEgress;
pub use egress::EgressQueue;
pub use egress::item_view;
pub use egress::replies_for;
pub use egress::lemma_delivered_prefix_per_client;
pub use egress::lemma_no_cross_delivery;
pub use receiver::ReceiverAction;
pub use receiver::receiver_step;
pub use receiver::package_reply;
pub use receiver::receiver_read_timeout_millis;

verus! {

/// Number of consecutive empty wait rounds after which a session is
/// evicted. The total idle timeout is `ROUNDS * ROUND_MILLIS`.
pub const ROUNDS: u64 = 10;

/// Duration of one idle-detection round, in milliseconds. Ten rounds
/// of eighteen seconds give a total idle timeout of three minutes.
pub const ROUND_MILLIS: u64 = 18000;

/// Extra margin, in milliseconds, for the upstream receiver's read
/// timeout so it never livelocks against the forwarder's own rounds.
pub const RECEIVER_MARGIN_MILLIS: u64 = 100;

} // verus!

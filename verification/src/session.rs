//! One per-client relay session: its inbound queue of payloads bound
//! for the upstream endpoint, and the idle-timeout state machine that
//! evicts the session after a full budget of empty wait rounds.
use vstd::prelude::*;

use crate::identity::ClientIdentity;
use crate::ROUNDS;

verus! {

/// Per-client session state. The two ghost histories record every
/// payload the session ever accepted and every payload it handed to
/// the upstream socket, so contracts can speak about delivery order.
pub struct Session {
    /// The client this session serves.
    pub identity: ClientIdentity,
    /// Creation ticket: strictly increasing across all sessions the
    /// table ever created, so a replacement is distinguishable from
    /// the session it replaced.
    pub session_id: u64,
    /// Local port of this session's exclusively owned upstream socket.
    pub upstream_port: u32,
    /// FIFO queue of payloads accepted from the client and not yet
    /// written to the upstream socket.
    pub inbound: Vec<Vec<u8>>,
    /// Consecutive empty wait rounds observed so far.
    pub rounds_idle: u64,
    /// Eviction flag: set exactly once, when `rounds_idle` reaches the
    /// idle budget; an evicted session accepts nothing further.
    pub evicted: bool,
    /// Every payload this session accepted, in arrival order.
    pub accepted: Ghost<Seq<Seq<u8>>>,
    /// Every payload handed to the upstream socket, in that order.
    pub forwarded: Ghost<Seq<Seq<u8>>>,
}

impl Session {
    /// The payloads currently waiting in the inbound queue.
    pub open spec fn queued(self) -> Seq<Seq<u8>> {
        self.inbound@.map(|i: int, v: Vec<u8>| v@)
    }

    /// Session invariant: what was forwarded followed by what still
    /// waits is exactly what was accepted, in order; the idle counter
    /// stays within the budget; and eviction happens only at the full
    /// budget, with an empty queue (a wait round can only elapse
    /// empty, so nothing accepted is ever abandoned).
    pub open spec fn wf(self) -> bool {
        &&& self.forwarded@ + self.queued() == self.accepted@
        &&& self.rounds_idle <= ROUNDS
        &&& !self.evicted ==> self.rounds_idle < ROUNDS
        &&& self.evicted ==> self.rounds_idle == ROUNDS && self.inbound@.len() == 0
    }

    /// Creates the session for a client's first datagram, which is
    /// always accepted as the queue's first element.
    pub fn create(
        identity: ClientIdentity,
        session_id: u64,
        upstream_port: u32,
        first_payload: Vec<u8>,
    ) -> (s: Session)
        ensures
            s.wf(),
            s.identity == identity,
            s.session_id == session_id,
            s.upstream_port == upstream_port,
            !s.evicted,
            s.rounds_idle == 0,
            s.accepted@ == seq![first_payload@],
            s.forwarded@ == Seq::<Seq<u8>>::empty(),
    {
        let ghost payload_view = first_payload@;
        let ghost first_accepted: Seq<Seq<u8>> = seq![payload_view];
        let mut inbound: Vec<Vec<u8>> = Vec::new();
        inbound.push(first_payload);
        let s = Session {
            identity,
            session_id,
            upstream_port,
            inbound,
            rounds_idle: 0,
            evicted: false,
            accepted: Ghost(first_accepted),
            forwarded: Ghost(Seq::empty()),
        };
        assert(s.forwarded@ + s.queued() =~= s.accepted@);
        s
    }

    /// Hands one payload to the session's inbound queue. Models the
    /// queue send of the dispatcher: it is refused exactly when the
    /// session has been evicted (its worker exited), and a refused
    /// payload is handed back unchanged, never dropped.
    pub fn accept(&mut self, payload: Vec<u8>) -> (rejected: Option<Vec<u8>>)
        requires
            old(self).wf(),
        ensures
            final(self).wf(),
            rejected is Some <==> old(self).evicted,
            old(self).evicted ==> *final(self) == *old(self) && rejected == Some(payload),
            !old(self).evicted ==> {
                &&& final(self).accepted@ == old(self).accepted@.push(payload@)
                &&& final(self).forwarded == old(self).forwarded
                &&& final(self).inbound@ == old(self).inbound@.push(payload)
                &&& final(self).identity == old(self).identity
                &&& final(self).session_id == old(self).session_id
                &&& final(self).upstream_port == old(self).upstream_port
                &&& final(self).rounds_idle == old(self).rounds_idle
                &&& !final(self).evicted
            },
    {
        if self.evicted {
            Some(payload)
        } else {
            let ghost payload_view = payload@;
            self.inbound.push(payload);
            proof {
                self.accepted@ = self.accepted@.push(payload_view);
                assert(self.forwarded@ + self.queued() =~= self.accepted@);
            }
            None
        }
    }

    /// The forwarder's wait on the inbound queue yielded a datagram:
    /// the idle round counter resets and the payload at the head of
    /// the queue is handed out, unmodified, to be written to the
    /// upstream socket. Returns `None` when the queue is empty.
    pub fn next_for_upstream(&mut self) -> (p: Option<Vec<u8>>)
        requires
            old(self).wf(),
            !old(self).evicted,
        ensures
            final(self).wf(),
            final(self).identity == old(self).identity,
            final(self).session_id == old(self).session_id,
            final(self).upstream_port == old(self).upstream_port,
            final(self).accepted == old(self).accepted,
            !final(self).evicted,
            old(self).inbound@.len() == 0 ==> p is None && *final(self) == *old(self),
            old(self).inbound@.len() > 0 ==> {
                &&& p is Some
                &&& p->Some_0@ == old(self).queued()[0]
                &&& final(self).forwarded@ == old(self).forwarded@.push(p->Some_0@)
                &&& final(self).inbound@ == old(self).inbound@.subrange(
                    1,
                    old(self).inbound@.len() as int,
                )
                &&& final(self).rounds_idle == 0
            },
    {
        if self.inbound.len() == 0 {
            None
        } else {
            let head = self.inbound.remove(0);
            self.rounds_idle = 0;
            proof {
                self.forwarded@ = self.forwarded@.push(head@);
                assert(old(self).queued().subrange(1, old(self).queued().len() as int)
                    =~= self.queued());
                assert(self.forwarded@ + self.queued() =~= self.accepted@);
            }
            Some(head)
        }
    }

    /// The next idle counter and eviction flag after one wait round
    /// elapses with no datagram.
    pub open spec fn round_transition(rounds: u64) -> (u64, bool) {
        if rounds + 1 >= ROUNDS {
            (ROUNDS, true)
        } else {
            ((rounds + 1) as u64, false)
        }
    }

    /// One wait round elapsed with the inbound queue empty: the idle
    /// counter advances, and on reaching the full budget the session
    /// sets its eviction flag (once, monotonically) and its worker
    /// terminates. Returns whether the session was evicted just now.
    pub fn round_timeout(&mut self) -> (evicted_now: bool)
        requires
            old(self).wf(),
            !old(self).evicted,
            old(self).inbound@.len() == 0,
        ensures
            final(self).wf(),
            final(self).identity == old(self).identity,
            final(self).session_id == old(self).session_id,
            final(self).upstream_port == old(self).upstream_port,
            final(self).accepted == old(self).accepted,
            final(self).forwarded == old(self).forwarded,
            final(self).inbound@ == old(self).inbound@,
            (final(self).rounds_idle, final(self).evicted) == Session::round_transition(
                old(self).rounds_idle,
            ),
            evicted_now == final(self).evicted,
            final(self).evicted <==> old(self).rounds_idle + 1 >= ROUNDS,
    {
        self.rounds_idle = self.rounds_idle + 1;
        if self.rounds_idle >= ROUNDS {
            self.evicted = true;
            true
        } else {
            false
        }
    }
}

/// The idle counter and eviction flag after `n` further empty wait
/// rounds; an evicted session observes no further rounds.
pub open spec fn rounds_after(rounds: u64, evicted: bool, n: nat) -> (u64, bool)
    decreases n,
{
    if n == 0 {
        (rounds, evicted)
    } else if evicted {
        (rounds, evicted)
    } else {
        let step = Session::round_transition(rounds);
        rounds_after(step.0, step.1, (n - 1) as nat)
    }
}

/// A session stays alive through any run of empty rounds shorter than
/// the remaining idle budget, and is evicted exactly when the budget
/// is used up.
pub proof fn lemma_rounds_progress(rounds: u64, n: nat)
    requires
        rounds < ROUNDS,
    ensures
        rounds + n < ROUNDS ==> rounds_after(rounds, false, n) == (((rounds + n) as u64), false),
        rounds + n >= ROUNDS ==> rounds_after(rounds, false, n) == (ROUNDS, true),
    decreases n,
{
    if n > 0 {
        let step = Session::round_transition(rounds);
        if step.1 {
            assert(rounds_after(rounds, false, n) == rounds_after(ROUNDS, true, (n - 1) as nat));
            assert(rounds_after(ROUNDS, true, (n - 1) as nat) == (ROUNDS, true));
        } else {
            lemma_rounds_progress(step.0, (n - 1) as nat);
        }
    }
}

/// The idle timeout evicts: a fresh session that observes a full
/// budget of consecutive empty wait rounds is evicted, and a session
/// that observes fewer stays alive.
pub proof fn lemma_idle_budget_evicts(n: nat)
    ensures
        n >= ROUNDS ==> rounds_after(0, false, n).1,
        n < ROUNDS ==> !rounds_after(0, false, n).1,
{
    lemma_rounds_progress(0, n);
}

/// Exactly-once ordered delivery toward the upstream endpoint: what a
/// session has forwarded is a prefix of what it accepted — the same
/// payloads, unmodified, in arrival order, none duplicated — and an
/// evicted session has forwarded everything it ever accepted.
pub proof fn lemma_forwarded_prefix_of_accepted(s: Session)
    requires
        s.wf(),
    ensures
        s.forwarded@.is_prefix_of(s.accepted@),
        s.evicted ==> s.forwarded@ == s.accepted@,
{
    assert(s.forwarded@ =~= s.accepted@.subrange(0, s.forwarded@.len() as int));
    if s.evicted {
        assert(s.forwarded@ =~= s.accepted@);
    }
}

} // verus!

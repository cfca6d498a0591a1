//! The session table and the ingress dispatcher: the single owner of
//! the mapping from client identities to live sessions, and the
//! race-safe routing of each inbound datagram to exactly one session.
use vstd::prelude::*;

use crate::identity::ClientIdentity;
use crate::ports::draw_ephemeral_port;
use crate::ports::EPHEMERAL_PORT_FLOOR;
use crate::session::Session;

verus! {

/// What the dispatcher did with one inbound datagram.
#[derive(Clone, Copy, PartialEq, Eq, Structural, Debug)]
pub enum DispatchOutcome {
    /// The datagram was handed to the client's existing live session.
    DeliveredToExisting { session_id: u64 },
    /// A new session was created for the datagram; `replaced_stale`
    /// says whether an evicted session of the same client stood in
    /// the table and was replaced.
    CreatedNew { session_id: u64, upstream_port: u32, replaced_stale: bool },
}

/// Mapping from client identity to that client's session. Touched
/// only by the ingress dispatcher, so it has a single writer by
/// construction.
pub struct SessionTable {
    /// The sessions, at most one per client identity.
    pub entries: Vec<Session>,
    /// The creation ticket the next new session will carry.
    pub next_session_id: u64,
}

impl SessionTable {
    /// Table invariant: identities are unique — at most one session
    /// per client —, every session satisfies its own invariant, and
    /// every session's ticket was drawn before the next one.
    pub open spec fn wf(self) -> bool {
        &&& forall|i: int, j: int|
            0 <= i < j < self.entries@.len() ==> (#[trigger] self.entries@[i]).identity != (
            #[trigger] self.entries@[j]).identity
        &&& forall|i: int| 0 <= i < self.entries@.len() ==> (#[trigger] self.entries@[i]).wf()
        &&& forall|i: int|
            0 <= i < self.entries@.len() ==> (#[trigger] self.entries@[i]).session_id
                < self.next_session_id
    }

    /// Some session (live or evicted) stands in the table for `c`.
    pub open spec fn contains_identity(self, c: ClientIdentity) -> bool {
        exists|i: int|
            0 <= i < self.entries@.len() && (#[trigger] self.entries@[i]).identity == c
    }

    /// The index of `c`'s session; meaningful when one exists.
    pub open spec fn index_for(self, c: ClientIdentity) -> int {
        choose|i: int|
            0 <= i < self.entries@.len() && (#[trigger] self.entries@[i]).identity == c
    }

    /// The session of client `c`; meaningful when one exists.
    pub open spec fn entry_for(self, c: ClientIdentity) -> Session {
        self.entries@[self.index_for(c)]
    }

    /// Client `c` has a session that has not been evicted.
    pub open spec fn has_live(self, c: ClientIdentity) -> bool {
        self.contains_identity(c) && !self.entry_for(c).evicted
    }

    /// In a well-formed table any index holding `c`'s identity is the
    /// one `index_for` denotes: identities are unique.
    pub proof fn lemma_index_unique(self, c: ClientIdentity, i: int)
        requires
            self.wf(),
            0 <= i < self.entries@.len(),
            self.entries@[i].identity == c,
        ensures
            self.contains_identity(c),
            self.index_for(c) == i,
            self.entry_for(c) == self.entries@[i],
    {
        assert(self.contains_identity(c));
        let j = self.index_for(c);
        if i < j {
            assert(self.entries@[i].identity != self.entries@[j].identity);
        }
        if j < i {
            assert(self.entries@[j].identity != self.entries@[i].identity);
        }
    }

    /// An empty table with no sessions created yet.
    pub fn new() -> (t: SessionTable)
        ensures
            t.wf(),
            t.entries@.len() == 0,
            t.next_session_id == 0,
            forall|c: ClientIdentity| !t.contains_identity(c),
    {
        SessionTable { entries: Vec::new(), next_session_id: 0 }
    }

    /// Looks up the index of `c`'s session in the underlying vector.
    fn find_index(&self, c: ClientIdentity) -> (r: Option<usize>)
        ensures
            match r {
                Some(i) => i < self.entries@.len() && self.entries@[i as int].identity == c,
                None => !self.contains_identity(c),
            },
    {
        let mut i: usize = 0;
        while i < self.entries.len()
            invariant
                i <= self.entries@.len(),
                forall|j: int| 0 <= j < i ==> (#[trigger] self.entries@[j]).identity != c,
            decreases self.entries@.len() - i,
        {
            if self.entries[i].identity == c {
                return Some(i);
            }
            i = i + 1;
        }
        None
    }

    /// Reads the session of client `c`, if one stands in the table.
    pub fn lookup(&self, c: ClientIdentity) -> (r: Option<&Session>)
        requires
            self.wf(),
        ensures
            r is Some <==> self.contains_identity(c),
            r is Some ==> *r->Some_0 == self.entry_for(c),
    {
        match self.find_index(c) {
            Some(i) => {
                proof {
                    self.lemma_index_unique(c, i as int);
                }
                Some(&self.entries[i])
            },
            None => None,
        }
    }
}

/// Replacing one session by another of the same client, in place,
/// preserves the table invariant and leaves every other client's
/// session untouched.
proof fn lemma_update_entry(pre: SessionTable, post: SessionTable, i: int, c: ClientIdentity)
    requires
        pre.wf(),
        0 <= i < pre.entries@.len(),
        pre.entries@[i].identity == c,
        post.entries@ == pre.entries@.update(i, post.entries@[i]),
        post.entries@[i].identity == c,
        post.entries@[i].wf(),
        post.entries@[i].session_id < post.next_session_id,
        pre.next_session_id <= post.next_session_id,
    ensures
        post.wf(),
        post.contains_identity(c),
        post.index_for(c) == i,
        post.entry_for(c) == post.entries@[i],
        forall|d: ClientIdentity|
            d != c ==> post.contains_identity(d) == pre.contains_identity(d),
        forall|d: ClientIdentity|
            d != c && pre.contains_identity(d) ==> post.entry_for(d) == pre.entry_for(d),
{
    assert(post.entries@.len() == pre.entries@.len());
    assert(forall|k: int|
        0 <= k < post.entries@.len() && k != i ==> post.entries@[k] == pre.entries@[k]);
    assert forall|a: int, b: int| 0 <= a < b < post.entries@.len() implies (
    #[trigger] post.entries@[a]).identity != (#[trigger] post.entries@[b]).identity by {
        assert(pre.entries@[a].identity != pre.entries@[b].identity);
        assert(post.entries@[a].identity == pre.entries@[a].identity);
        assert(post.entries@[b].identity == pre.entries@[b].identity);
    }
    assert forall|k: int| 0 <= k < post.entries@.len() implies (
    #[trigger] post.entries@[k]).wf() && post.entries@[k].session_id < post.next_session_id by {
        if k != i {
            assert(pre.entries@[k].wf());
            assert(pre.entries@[k].session_id < pre.next_session_id);
        }
    }
    post.lemma_index_unique(c, i);
    assert forall|d: ClientIdentity| d != c implies post.contains_identity(d)
        == pre.contains_identity(d) by {
        if pre.contains_identity(d) {
            let j = pre.index_for(d);
            assert(0 <= j < pre.entries@.len() && pre.entries@[j].identity == d);
            assert(j != i);
            assert(post.entries@[j].identity == d);
            assert(post.contains_identity(d));
        }
        if post.contains_identity(d) {
            let j = post.index_for(d);
            assert(0 <= j < post.entries@.len() && post.entries@[j].identity == d);
            assert(j != i);
            assert(pre.entries@[j].identity == d);
            assert(pre.contains_identity(d));
        }
    }
    assert forall|d: ClientIdentity| d != c && pre.contains_identity(d) implies post.entry_for(d)
        == pre.entry_for(d) by {
        let j = pre.index_for(d);
        assert(0 <= j < pre.entries@.len() && pre.entries@[j].identity == d);
        pre.lemma_index_unique(d, j);
        assert(j != i);
        assert(post.entries@[j].identity == d);
        post.lemma_index_unique(d, j);
    }
}

/// Appending a session for a client absent from the table preserves
/// the invariant and leaves every other client's session untouched.
proof fn lemma_push_entry(pre: SessionTable, post: SessionTable, c: ClientIdentity)
    requires
        pre.wf(),
        !pre.contains_identity(c),
        post.entries@.len() == pre.entries@.len() + 1,
        post.entries@ == pre.entries@.push(post.entries@.last()),
        post.entries@.last().identity == c,
        post.entries@.last().wf(),
        post.entries@.last().session_id == pre.next_session_id,
        post.next_session_id == pre.next_session_id + 1,
    ensures
        post.wf(),
        post.contains_identity(c),
        post.index_for(c) == pre.entries@.len(),
        post.entry_for(c) == post.entries@.last(),
        forall|d: ClientIdentity|
            d != c ==> post.contains_identity(d) == pre.contains_identity(d),
        forall|d: ClientIdentity|
            d != c && pre.contains_identity(d) ==> post.entry_for(d) == pre.entry_for(d),
{
    let n = pre.entries@.len() as int;
    assert(forall|k: int| 0 <= k < n ==> post.entries@[k] == pre.entries@[k]);
    assert forall|k: int| 0 <= k < n implies (#[trigger] pre.entries@[k]).identity != c by {
        if pre.entries@[k].identity == c {
            assert(pre.contains_identity(c));
        }
    }
    assert forall|a: int, b: int| 0 <= a < b < post.entries@.len() implies (
    #[trigger] post.entries@[a]).identity != (#[trigger] post.entries@[b]).identity by {
        if b < n {
            assert(pre.entries@[a].identity != pre.entries@[b].identity);
        } else {
            assert(post.entries@[b] == post.entries@.last());
            assert(pre.entries@[a].identity != c);
        }
    }
    assert forall|k: int| 0 <= k < post.entries@.len() implies (
    #[trigger] post.entries@[k]).wf() && post.entries@[k].session_id < post.next_session_id by {
        if k < n {
            assert(pre.entries@[k].wf());
            assert(pre.entries@[k].session_id < pre.next_session_id);
        }
    }
    post.lemma_index_unique(c, n);
    assert forall|d: ClientIdentity| d != c implies post.contains_identity(d)
        == pre.contains_identity(d) by {
        if pre.contains_identity(d) {
            let j = pre.index_for(d);
            assert(0 <= j < n && pre.entries@[j].identity == d);
            assert(post.entries@[j].identity == d);
            assert(post.contains_identity(d));
        }
        if post.contains_identity(d) {
            let j = post.index_for(d);
            assert(0 <= j < post.entries@.len() && post.entries@[j].identity == d);
            assert(j != n);
            assert(pre.entries@[j].identity == d);
            assert(pre.contains_identity(d));
        }
    }
    assert forall|d: ClientIdentity| d != c && pre.contains_identity(d) implies post.entry_for(d)
        == pre.entry_for(d) by {
        let j = pre.index_for(d);
        assert(0 <= j < n && pre.entries@[j].identity == d);
        pre.lemma_index_unique(d, j);
        assert(post.entries@[j].identity == d);
        post.lemma_index_unique(d, j);
    }
}

impl SessionTable {
    /// Ingress dispatch of one inbound datagram, given the candidate
    /// port a replacement session would use. The datagram is never
    /// silently dropped: after the call its payload stands last in
    /// the accepted history of the one live session of its sender.
    /// A datagram meeting a concurrently evicted session is retried
    /// against a freshly created replacement, which accepts it as its
    /// first item; sessions of every other client are untouched.
    pub fn dispatch(
        &mut self,
        identity: ClientIdentity,
        payload: Vec<u8>,
        fresh_port: u32,
    ) -> (r: DispatchOutcome)
        requires
            old(self).wf(),
            old(self).next_session_id < u64::MAX,
        ensures
            final(self).wf(),
            final(self).contains_identity(identity),
            !final(self).entry_for(identity).evicted,
            final(self).entry_for(identity).identity == identity,
            final(self).entry_for(identity).accepted@.len() > 0,
            final(self).entry_for(identity).accepted@.last() == payload@,
            forall|c: ClientIdentity|
                c != identity ==> final(self).contains_identity(c) == old(
                    self,
                ).contains_identity(c),
            forall|c: ClientIdentity|
                c != identity && old(self).contains_identity(c) ==> final(self).entry_for(c)
                    == old(self).entry_for(c),
            match r {
                DispatchOutcome::DeliveredToExisting { session_id } => {
                    &&& old(self).has_live(identity)
                    &&& session_id == old(self).entry_for(identity).session_id
                    &&& final(self).entry_for(identity).session_id == session_id
                    &&& final(self).entry_for(identity).upstream_port == old(self).entry_for(
                        identity,
                    ).upstream_port
                    &&& final(self).entry_for(identity).accepted@ == old(self).entry_for(
                        identity,
                    ).accepted@.push(payload@)
                    &&& final(self).entry_for(identity).forwarded == old(self).entry_for(
                        identity,
                    ).forwarded
                    &&& final(self).next_session_id == old(self).next_session_id
                },
                DispatchOutcome::CreatedNew { session_id, upstream_port, replaced_stale } => {
                    &&& replaced_stale == old(self).contains_identity(identity)
                    &&& (old(self).contains_identity(identity) ==> old(self).entry_for(
                        identity,
                    ).evicted)
                    &&& session_id == old(self).next_session_id
                    &&& upstream_port == fresh_port
                    &&& final(self).entry_for(identity).session_id == session_id
                    &&& final(self).entry_for(identity).upstream_port == fresh_port
                    &&& final(self).entry_for(identity).accepted@ == seq![payload@]
                    &&& final(self).entry_for(identity).forwarded@ == Seq::<Seq<u8>>::empty()
                    &&& final(self).entry_for(identity).rounds_idle == 0
                    &&& final(self).next_session_id == old(self).next_session_id + 1
                },
            },
    {
        let found = self.find_index(identity);
        match found {
            Some(i) => {
                proof {
                    old(self).lemma_index_unique(identity, i as int);
                }
                let rejected = self.entries[i].accept(payload);
                match rejected {
                    None => {
                        let sid = self.entries[i].session_id;
                        proof {
                            lemma_update_entry(*old(self), *self, i as int, identity);
                        }
                        DispatchOutcome::DeliveredToExisting { session_id: sid }
                    },
                    Some(handed_back) => {
                        // The eviction race: the session's worker
                        // exited concurrently. Replace the stale
                        // entry with a fresh session, which accepts
                        // the datagram as its first item.
                        let sid = self.next_session_id;
                        self.next_session_id = sid + 1;
                        let fresh = Session::create(identity, sid, fresh_port, handed_back);
                        self.entries[i] = fresh;
                        proof {
                            assert(self.entries@ =~= old(self).entries@.update(
                                i as int,
                                self.entries@[i as int],
                            ));
                            lemma_update_entry(*old(self), *self, i as int, identity);
                        }
                        DispatchOutcome::CreatedNew {
                            session_id: sid,
                            upstream_port: fresh_port,
                            replaced_stale: true,
                        }
                    },
                }
            },
            None => {
                let sid = self.next_session_id;
                self.next_session_id = sid + 1;
                let fresh = Session::create(identity, sid, fresh_port, payload);
                self.entries.push(fresh);
                proof {
                    lemma_push_entry(*old(self), *self, identity);
                }
                DispatchOutcome::CreatedNew {
                    session_id: sid,
                    upstream_port: fresh_port,
                    replaced_stale: false,
                }
            },
        }
    }

    /// Ingress entry point as the dispatcher runs it: routes one
    /// inbound datagram, drawing a random ephemeral port for the
    /// upstream socket in case a session must be created.
    pub fn dispatch_datagram(&mut self, identity: ClientIdentity, payload: Vec<u8>) -> (r:
        DispatchOutcome)
        requires
            old(self).wf(),
            old(self).next_session_id < u64::MAX,
        ensures
            final(self).wf(),
            final(self).contains_identity(identity),
            !final(self).entry_for(identity).evicted,
            final(self).entry_for(identity).accepted@.len() > 0,
            final(self).entry_for(identity).accepted@.last() == payload@,
            forall|c: ClientIdentity|
                c != identity ==> final(self).contains_identity(c) == old(
                    self,
                ).contains_identity(c),
            forall|c: ClientIdentity|
                c != identity && old(self).contains_identity(c) ==> final(self).entry_for(c)
                    == old(self).entry_for(c),
            r matches DispatchOutcome::CreatedNew { session_id, upstream_port, replaced_stale }
                ==> EPHEMERAL_PORT_FLOOR <= upstream_port <= EPHEMERAL_PORT_FLOOR + u16::MAX,
    {
        let port = draw_ephemeral_port();
        self.dispatch(identity, payload, port)
    }

    /// One wait of the client's session forwarder on its inbound
    /// queue that yielded a datagram: the payload at the head of the
    /// queue comes out, unmodified, to be written to the upstream
    /// socket, and the session's idle counter resets. Returns `None`
    /// when the queue is empty (the wait would time out instead).
    pub fn pump_upstream(&mut self, identity: ClientIdentity) -> (p: Option<Vec<u8>>)
        requires
            old(self).wf(),
            old(self).has_live(identity),
        ensures
            final(self).wf(),
            final(self).has_live(identity),
            final(self).next_session_id == old(self).next_session_id,
            forall|c: ClientIdentity|
                c != identity ==> final(self).contains_identity(c) == old(
                    self,
                ).contains_identity(c),
            forall|c: ClientIdentity|
                c != identity && old(self).contains_identity(c) ==> final(self).entry_for(c)
                    == old(self).entry_for(c),
            final(self).entry_for(identity).accepted == old(self).entry_for(identity).accepted,
            final(self).entry_for(identity).session_id == old(self).entry_for(
                identity,
            ).session_id,
            final(self).entry_for(identity).upstream_port == old(self).entry_for(
                identity,
            ).upstream_port,
            old(self).entry_for(identity).inbound@.len() == 0 ==> p is None && final(self).entry_for(identity) == old(self).entry_for(identity),
            old(self).entry_for(identity).inbound@.len() > 0 ==> {
                &&& p is Some
                &&& p->Some_0@ == old(self).entry_for(identity).queued()[0]
                &&& final(self).entry_for(identity).forwarded@ == old(self).entry_for(
                    identity,
                ).forwarded@.push(p->Some_0@)
                &&& final(self).entry_for(identity).rounds_idle == 0
            },
    {
        let found = self.find_index(identity);
        match found {
            Some(i) => {
                proof {
                    old(self).lemma_index_unique(identity, i as int);
                }
                let p = self.entries[i].next_for_upstream();
                proof {
                    lemma_update_entry(*old(self), *self, i as int, identity);
                }
                p
            },
            None => {
                proof {
                    assert(false);
                }
                None
            },
        }
    }

    /// One wait round of the client's session forwarder elapsed with
    /// its inbound queue empty: the idle counter advances, and on
    /// reaching the full budget the session is evicted. Returns
    /// whether the session was evicted just now.
    pub fn idle_round(&mut self, identity: ClientIdentity) -> (evicted_now: bool)
        requires
            old(self).wf(),
            old(self).has_live(identity),
            old(self).entry_for(identity).inbound@.len() == 0,
        ensures
            final(self).wf(),
            final(self).contains_identity(identity),
            final(self).next_session_id == old(self).next_session_id,
            forall|c: ClientIdentity|
                c != identity ==> final(self).contains_identity(c) == old(
                    self,
                ).contains_identity(c),
            forall|c: ClientIdentity|
                c != identity && old(self).contains_identity(c) ==> final(self).entry_for(c)
                    == old(self).entry_for(c),
            final(self).entry_for(identity).identity == identity,
            final(self).entry_for(identity).accepted == old(self).entry_for(identity).accepted,
            final(self).entry_for(identity).forwarded == old(self).entry_for(
                identity,
            ).forwarded,
            final(self).entry_for(identity).session_id == old(self).entry_for(
                identity,
            ).session_id,
            final(self).entry_for(identity).upstream_port == old(self).entry_for(
                identity,
            ).upstream_port,
            (final(self).entry_for(identity).rounds_idle, final(self).entry_for(
                identity,
            ).evicted) == Session::round_transition(old(self).entry_for(identity).rounds_idle),
            evicted_now == final(self).entry_for(identity).evicted,
            final(self).entry_for(identity).evicted <==> old(self).entry_for(
                identity,
            ).rounds_idle + 1 >= crate::ROUNDS,
    {
        let found = self.find_index(identity);
        match found {
            Some(i) => {
                proof {
                    old(self).lemma_index_unique(identity, i as int);
                }
                let evicted_now = self.entries[i].round_timeout();
                proof {
                    lemma_update_entry(*old(self), *self, i as int, identity);
                }
                evicted_now
            },
            None => {
                proof {
                    assert(false);
                }
                false
            },
        }
    }
}

/// Any session standing in a well-formed table satisfies the session
/// invariant and serves exactly the client it is filed under, so the
/// per-session delivery laws apply to it.
pub proof fn lemma_table_session_wf(t: SessionTable, c: ClientIdentity)
    requires
        t.wf(),
        t.contains_identity(c),
    ensures
        t.entry_for(c).wf(),
        t.entry_for(c).identity == c,
{
    let j = t.index_for(c);
    assert(0 <= j < t.entries@.len() && t.entries@[j].identity == c);
}

/// Per-client exactly-once ordered forwarding, at the table: whatever
/// session a client currently has, the payloads it handed to the
/// upstream socket are a prefix of the payloads it accepted — the
/// same datagrams, unmodified, in arrival order, none duplicated.
pub proof fn lemma_client_to_upstream_order(t: SessionTable, c: ClientIdentity)
    requires
        t.wf(),
        t.contains_identity(c),
    ensures
        t.entry_for(c).forwarded@.is_prefix_of(t.entry_for(c).accepted@),
        t.entry_for(c).evicted ==> t.entry_for(c).forwarded@ == t.entry_for(c).accepted@,
{
    lemma_table_session_wf(t, c);
    crate::session::lemma_forwarded_prefix_of_accepted(t.entry_for(c));
}

/// A replacement session is genuinely new: the session created for a
/// client after its previous session's eviction carries a session id
/// the old session cannot carry, and it uses whatever fresh ephemeral
/// port the dispatcher drew — a different upstream port than before
/// whenever the draw differs from the old port.
pub proof fn lemma_replacement_is_fresh(
    pre: SessionTable,
    post: SessionTable,
    c: ClientIdentity,
    fresh_port: u32,
)
    requires
        pre.wf(),
        pre.contains_identity(c),
        post.entry_for(c).session_id == pre.next_session_id,
        post.entry_for(c).upstream_port == fresh_port,
    ensures
        post.entry_for(c).session_id != pre.entry_for(c).session_id,
        fresh_port != pre.entry_for(c).upstream_port ==> post.entry_for(c).upstream_port != pre
            .entry_for(c).upstream_port,
{
    let j = pre.index_for(c);
    assert(0 <= j < pre.entries@.len() && pre.entries@[j].identity == c);
    assert(pre.entries@[j].session_id < pre.next_session_id);
}

} // verus!

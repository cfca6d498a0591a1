//! The egress multiplexer's shared queue: upstream replies packaged
//! as (client identity, payload), drained one at a time and written
//! back to the recorded client over the shared public socket.
use vstd::prelude::*;
use vstd::seq_lib::*;

use crate::identity::ClientIdentity;

verus! {

/// One upstream reply queued for delivery back to a client: the
/// originating client's identity and the unmodified reply payload.
pub struct PendingEgress {
    pub identity: ClientIdentity,
    pub payload: Vec<u8>,
}

/// Mathematical image of one queued reply.
pub open spec fn item_view(p: PendingEgress) -> (ClientIdentity, Seq<u8>) {
    (p.identity, p.payload@)
}

/// The replies among `items` that belong to client `c`, in order.
pub open spec fn replies_for(items: Seq<(ClientIdentity, Seq<u8>)>, c: ClientIdentity) -> Seq<
    Seq<u8>,
> {
    items.filter(|e: (ClientIdentity, Seq<u8>)| e.0 == c).map_values(
        |e: (ClientIdentity, Seq<u8>)| e.1,
    )
}

/// The shared egress queue. The ghost histories record every reply
/// ever pushed by a session's upstream receiver and every reply the
/// multiplexer has taken out for delivery, so contracts can speak
/// about what each client receives.
pub struct EgressQueue {
    /// Replies waiting for the multiplexer, oldest first.
    pub items: Vec<PendingEgress>,
    /// Every reply ever pushed, in push order.
    pub pushed: Ghost<Seq<(ClientIdentity, Seq<u8>)>>,
    /// Every reply handed out for delivery, in delivery order.
    pub delivered: Ghost<Seq<(ClientIdentity, Seq<u8>)>>,
}

impl EgressQueue {
    /// The replies currently waiting in the queue.
    pub open spec fn queued(self) -> Seq<(ClientIdentity, Seq<u8>)> {
        self.items@.map(|i: int, p: PendingEgress| item_view(p))
    }

    /// Queue invariant: what was delivered followed by what still
    /// waits is exactly what was pushed, in order.
    pub open spec fn wf(self) -> bool {
        self.delivered@ + self.queued() == self.pushed@
    }

    /// An empty queue with no history.
    pub fn new() -> (q: EgressQueue)
        ensures
            q.wf(),
            q.items@.len() == 0,
            q.pushed@ == Seq::<(ClientIdentity, Seq<u8>)>::empty(),
            q.delivered@ == Seq::<(ClientIdentity, Seq<u8>)>::empty(),
    {
        let q = EgressQueue { items: Vec::new(), pushed: Ghost(Seq::empty()), delivered: Ghost(
            Seq::empty(),
        ) };
        proof {
            assert(q.delivered@ + q.queued() =~= q.pushed@);
        }
        q
    }

    /// A session's upstream receiver pushes one reply it read, under
    /// its own session's client identity, with the payload unmodified.
    /// The push always succeeds: the queue is unbounded.
    pub fn push_reply(&mut self, identity: ClientIdentity, payload: Vec<u8>)
        requires
            old(self).wf(),
        ensures
            final(self).wf(),
            final(self).pushed@ == old(self).pushed@.push((identity, payload@)),
            final(self).delivered == old(self).delivered,
            final(self).items@.len() == old(self).items@.len() + 1,
    {
        let ghost entry = (identity, payload@);
        self.items.push(PendingEgress { identity, payload });
        proof {
            self.pushed@ = self.pushed@.push(entry);
            assert(self.delivered@ + self.queued() =~= self.pushed@);
        }
    }

    /// The multiplexer takes the oldest waiting reply out for
    /// delivery; the caller then writes its payload to the public
    /// socket addressed to exactly the identity it records. Returns
    /// `None` when the queue is empty.
    pub fn pop_next(&mut self) -> (r: Option<PendingEgress>)
        requires
            old(self).wf(),
        ensures
            final(self).wf(),
            r is Some <==> old(self).items@.len() > 0,
            old(self).items@.len() == 0 ==> *final(self) == *old(self),
            old(self).items@.len() > 0 ==> {
                &&& item_view(r->Some_0) == old(self).queued()[0]
                &&& final(self).delivered@ == old(self).delivered@.push(item_view(r->Some_0))
                &&& final(self).pushed == old(self).pushed
                &&& final(self).items@ == old(self).items@.subrange(
                    1,
                    old(self).items@.len() as int,
                )
            },
    {
        if self.items.len() == 0 {
            None
        } else {
            let head = self.items.remove(0);
            proof {
                self.delivered@ = self.delivered@.push(item_view(head));
                assert(old(self).queued().subrange(1, old(self).queued().len() as int)
                    =~= self.queued());
                assert(self.delivered@ + self.queued() =~= self.pushed@);
            }
            Some(head)
        }
    }
}

/// Splitting a reply sequence splits each client's replies: filtering
/// and projecting distribute over concatenation.
proof fn lemma_replies_for_distributes(
    a: Seq<(ClientIdentity, Seq<u8>)>,
    b: Seq<(ClientIdentity, Seq<u8>)>,
    c: ClientIdentity,
)
    ensures
        replies_for(a + b, c) == replies_for(a, c) + replies_for(b, c),
{
    let pred = |e: (ClientIdentity, Seq<u8>)| e.0 == c;
    let proj = |e: (ClientIdentity, Seq<u8>)| e.1;
    Seq::filter_distributes_over_add(a, b, pred);
    assert((a.filter(pred) + b.filter(pred)).map_values(proj) =~= a.filter(pred).map_values(proj)
        + b.filter(pred).map_values(proj));
}

/// Exactly-once ordered delivery toward each client: the replies
/// delivered to client `c` are a prefix of the replies pushed for `c`
/// — the same payloads, unmodified, in push order, none duplicated.
pub proof fn lemma_delivered_prefix_per_client(q: EgressQueue, c: ClientIdentity)
    requires
        q.wf(),
    ensures
        replies_for(q.delivered@, c).is_prefix_of(replies_for(q.pushed@, c)),
{
    lemma_replies_for_distributes(q.delivered@, q.queued(), c);
    let d = replies_for(q.delivered@, c);
    let p = replies_for(q.pushed@, c);
    assert(d =~= p.subrange(0, d.len() as int));
}

/// No cross-delivery between distinct clients: a reply the
/// multiplexer delivers to client `a` is one that was pushed for `a`
/// — it carries `a`'s identity from the push on, so it can never be a
/// reply pushed for a different client `b`.
pub proof fn lemma_no_cross_delivery(
    q: EgressQueue,
    a: ClientIdentity,
    b: ClientIdentity,
    i: int,
)
    requires
        q.wf(),
        a != b,
        0 <= i < q.delivered@.len(),
        q.delivered@[i].0 == a,
    ensures
        q.delivered@[i] == q.pushed@[i],
        q.pushed@[i].0 == a,
        q.pushed@[i].0 != b,
{
    assert(q.pushed@[i] == (q.delivered@ + q.queued())[i]);
}

} // verus!

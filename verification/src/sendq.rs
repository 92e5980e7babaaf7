//! The single-flight send queue: the discipline that the transport's
//! sink requires. The sink is not safe for concurrent writers, so at
//! most one send may be in flight at a time; callers enqueue outgoing
//! texts here, and one drainer takes them out strictly in order, one at
//! a time, marking each send complete before it may take the next.

use vstd::prelude::*;

verus! {

/// Outgoing texts awaiting their turn on the transport, and whether a
/// send is in flight right now. Drive it through the methods: they
/// keep the single-flight discipline.
#[derive(Debug)]
pub struct SendQueue {
    pub pending: Vec<String>,
    pub in_flight: bool,
}

impl SendQueue {
    /// An empty queue with no send in flight.
    pub fn new() -> (q: SendQueue)
        ensures
            q.pending@ == Seq::<String>::empty(),
            !q.in_flight,
    {
        let q = SendQueue { pending: Vec::new(), in_flight: false };
        proof {
            assert(q.pending@ =~= Seq::<String>::empty());
        }
        q
    }

    /// Puts one text at the back of the queue; the flight state is
    /// untouched.
    pub fn enqueue(&mut self, msg: String)
        ensures
            final(self).pending@ == old(self).pending@.push(msg),
            final(self).in_flight == old(self).in_flight,
    {
        self.pending.push(msg);
    }

    /// Takes the next text to send, only when no send is in flight and
    /// one is waiting; taking it puts the queue in flight. While a
    /// send is in flight this yields nothing, so two sends can never
    /// overlap.
    pub fn begin_send(&mut self) -> (r: Option<String>)
        ensures
            ({
                let pre = *old(self);
                let post = *final(self);
                if pre.in_flight || pre.pending@.len() == 0 {
                    r is None && post == pre
                } else {
                    &&& r == Some(pre.pending@[0])
                    &&& post.pending@ == pre.pending@.drop_first()
                    &&& post.in_flight
                }
            }),
    {
        if self.in_flight || self.pending.len() == 0 {
            None
        } else {
            self.in_flight = true;
            let msg = self.pending.remove(0);
            proof {
                assert(self.pending@ =~= old(self).pending@.drop_first());
            }
            Some(msg)
        }
    }

    /// Whether a send is in flight.
    pub fn sending(&self) -> (r: bool)
        ensures
            r == self.in_flight,
    {
        self.in_flight
    }

    /// Marks the in-flight send as finished, whichever way it ended;
    /// the next text may then be taken.
    pub fn complete_send(&mut self)
        ensures
            final(self).pending@ == old(self).pending@,
            !final(self).in_flight,
    {
        self.in_flight = false;
    }
}

} // verus!

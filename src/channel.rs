use vstd::prelude::*;

use crate::hook::HookKind;

verus! {

/// A reference to a function registered by the host; zero is the null
/// reference, which no channel can bind to.
#[derive(Clone, Copy, Debug, PartialEq, Eq, Structural)]
pub struct CallbackRef {
    pub handle: u64,
}

/// A handle to pipeline state that the pipeline keeps in a table of its own.
/// The host sees the state through it for the duration of one call only.
#[derive(Clone, Copy, Debug, PartialEq, Eq, Structural)]
pub struct StateHandle {
    pub slot: u64,
}

/// What a call hands to the host callback.
#[derive(Clone, Copy, Debug, PartialEq, Eq, Structural)]
pub enum Payload {
    Unit,
    State(StateHandle),
}

/// Names one call: its hook and its position among the calls of that hook.
#[derive(Clone, Copy, Debug, PartialEq, Eq, Structural)]
pub struct CallTicket {
    pub hook: HookKind,
    pub seq: u64,
}

/// A call waiting in a channel for the host to run it.
#[derive(Clone, Copy, Debug, PartialEq, Eq, Structural)]
pub struct QueuedCall {
    pub ticket: CallTicket,
    pub payload: Payload,
}

/// The abstract state of a call channel.
pub ghost struct ChannelModel {
    pub hook: HookKind,
    pub callback: CallbackRef,
    /// Calls enqueued and not yet delivered, oldest first.
    pub queued: Seq<QueuedCall>,
    /// Sequence numbers of calls delivered to the host and not yet finished.
    pub in_flight: Set<u64>,
    /// The sequence number that the next call receives.
    pub next_seq: nat,
    /// Whether pending calls keep the host process alive.
    pub referenced: bool,
}

/// The channel's bookkeeping is consistent: queued calls belong to its hook,
/// carry increasing sequence numbers below `next_seq`, and no call is both
/// queued and in flight.
pub open spec fn channel_wf(m: ChannelModel) -> bool {
    &&& forall|i: int| 0 <= i < m.queued.len() ==> (#[trigger] m.queued[i]).ticket.hook == m.hook
    &&& forall|i: int| 0 <= i < m.queued.len() ==> (#[trigger] m.queued[i]).ticket.seq < m.next_seq
    &&& forall|i: int, j: int| 0 <= i < j < m.queued.len()
        ==> (#[trigger] m.queued[i]).ticket.seq < (#[trigger] m.queued[j]).ticket.seq
    &&& forall|s: u64| #[trigger] m.in_flight.contains(s) ==> s < m.next_seq
    &&& forall|i: int| 0 <= i < m.queued.len() ==> !m.in_flight.contains(
        (#[trigger] m.queued[i]).ticket.seq,
    )
}

/// The sequence numbers of the given calls, as a set.
pub open spec fn seqs_of(calls: Seq<QueuedCall>) -> Set<u64> {
    Set::new(|s: u64| exists|i: int| 0 <= i < calls.len() && (#[trigger] calls[i]).ticket.seq == s)
}

/// An ordered call queue bound to one host callback.
#[derive(Debug)]
pub struct CallChannel {
    hook: HookKind,
    callback: CallbackRef,
    queue: Vec<QueuedCall>,
    in_flight: Vec<u64>,
    next_seq: u64,
    referenced: bool,
}

impl View for CallChannel {
    type V = ChannelModel;

    closed spec fn view(&self) -> ChannelModel {
        ChannelModel {
            hook: self.hook,
            callback: self.callback,
            queued: self.queue@,
            in_flight: Set::new(|s: u64| self.in_flight@.contains(s)),
            next_seq: self.next_seq as nat,
            referenced: self.referenced,
        }
    }
}

impl CallChannel {
    /// The in-flight list holds no number twice.
    closed spec fn in_flight_distinct(&self) -> bool {
        forall|i: int, j: int| 0 <= i < j < self.in_flight@.len()
            ==> self.in_flight@[i] != self.in_flight@[j]
    }

    pub closed spec fn wf(&self) -> bool {
        channel_wf(self@) && self.in_flight_distinct()
    }

    /// A consistent channel's model is consistent.
    pub proof fn lemma_wf_model(&self)
        requires
            self.wf(),
        ensures
            channel_wf(self@),
    {
    }

    /// Binds a new channel to `callback`; fails on the null reference.
    pub fn create(hook: HookKind, callback: CallbackRef) -> (r: Option<CallChannel>)
        ensures
            callback.handle == 0 <==> r is None,
            r matches Some(c) ==> c.wf() && c@ == (ChannelModel {
                hook,
                callback,
                queued: Seq::empty(),
                in_flight: Set::empty(),
                next_seq: 0,
                referenced: true,
            }),
    {
        if callback.handle == 0 {
            return None;
        }
        let c = CallChannel {
            hook,
            callback,
            queue: Vec::new(),
            in_flight: Vec::new(),
            next_seq: 0,
            referenced: true,
        };
        assert(c@.in_flight =~= Set::empty());
        Some(c)
    }

    pub fn hook(&self) -> (r: HookKind)
        ensures
            r == self@.hook,
    {
        self.hook
    }

    pub fn callback(&self) -> (r: CallbackRef)
        ensures
            r == self@.callback,
    {
        self.callback
    }

    /// Whether another call can still be numbered.
    pub fn has_capacity(&self) -> (r: bool)
        ensures
            r == (self@.next_seq < u64::MAX),
    {
        self.next_seq < u64::MAX
    }

    /// Whether the channel has no call queued and none in flight.
    pub fn is_idle(&self) -> (r: bool)
        requires
            self.wf(),
        ensures
            r == (self@.queued.len() == 0 && self@.in_flight.is_empty()),
    {
        proof {
            if self.in_flight@.len() > 0 {
                assert(self@.in_flight.contains(self.in_flight@[0]));
            }
        }
        self.queue.len() == 0 && self.in_flight.len() == 0
    }

    /// Whether the channel holds the host process alive: it is referenced
    /// and some call is queued or in flight.
    pub fn keeps_host_alive(&self) -> (r: bool)
        requires
            self.wf(),
        ensures
            r == (self@.referenced && !(self@.queued.len() == 0 && self@.in_flight.is_empty())),
    {
        let idle = self.is_idle();
        self.referenced && !idle
    }

    /// Enqueues a call carrying `payload`, behind every call already queued.
    pub fn call(&mut self, payload: Payload) -> (r: CallTicket)
        requires
            old(self).wf(),
            old(self)@.next_seq < u64::MAX,
        ensures
            final(self).wf(),
            r == (CallTicket { hook: old(self)@.hook, seq: old(self)@.next_seq as u64 }),
            final(self)@ == (ChannelModel {
                queued: old(self)@.queued.push(QueuedCall { ticket: r, payload }),
                next_seq: old(self)@.next_seq + 1,
                ..old(self)@
            }),
    {
        let ticket = CallTicket { hook: self.hook, seq: self.next_seq };
        self.queue.push(QueuedCall { ticket, payload });
        self.next_seq = self.next_seq + 1;
        ticket
    }

    /// Stops pending calls from keeping the host process alive. Queued and
    /// in-flight calls are kept and still delivered and finished.
    pub fn unref(&mut self)
        requires
            old(self).wf(),
        ensures
            final(self).wf(),
            final(self)@ == (ChannelModel { referenced: false, ..old(self)@ }),
    {
        self.referenced = false;
    }

    /// Hands every queued call to the host, oldest first; they are then in
    /// flight until finished.
    pub fn take_queued(&mut self) -> (r: Vec<QueuedCall>)
        requires
            old(self).wf(),
        ensures
            final(self).wf(),
            r@ == old(self)@.queued,
            final(self)@ == (ChannelModel {
                queued: Seq::empty(),
                in_flight: old(self)@.in_flight.union(seqs_of(old(self)@.queued)),
                ..old(self)@
            }),
    {
        let ghost old_in = self.in_flight@;
        let ghost q = self.queue@;
        let mut i: usize = 0;
        while i < self.queue.len()
            invariant
                0 <= i <= self.queue@.len(),
                self.queue@ == q,
                self.hook == old(self).hook,
                self.callback == old(self).callback,
                self.next_seq == old(self).next_seq,
                self.referenced == old(self).referenced,
                old_in == old(self).in_flight@,
                q == old(self).queue@,
                old(self).wf(),
                self.in_flight@ == old_in + q.subrange(0, i as int).map_values(|c: QueuedCall| c.ticket.seq),
                forall|a: int, b: int| 0 <= a < b < old_in.len() ==> old_in[a] != old_in[b],
                forall|a: int, b: int| 0 <= a < b < q.len() ==> q[a].ticket.seq < q[b].ticket.seq,
                forall|a: int| 0 <= a < q.len() ==> !old_in.contains(#[trigger] q[a].ticket.seq),
                forall|a: int, b: int| 0 <= a < b < self.in_flight@.len()
                    ==> self.in_flight@[a] != self.in_flight@[b],
            decreases self.queue@.len() - i,
        {
            let s = self.queue[i].ticket.seq;
            proof {
                assert forall|a: int| 0 <= a < self.in_flight@.len() implies self.in_flight@[a] != s by {
                    if a < old_in.len() {
                        assert(old_in.contains(old_in[a]));
                    } else {
                        let k = a - old_in.len();
                        assert(self.in_flight@[a] == q[k].ticket.seq);
                    }
                }
            }
            self.in_flight.push(s);
            i = i + 1;
            proof {
                assert(q.subrange(0, i as int) =~= q.subrange(0, i - 1).push(q[i - 1]));
                assert(self.in_flight@ =~= old_in + q.subrange(0, i as int).map_values(
                    |c: QueuedCall| c.ticket.seq,
                ));
            }
        }
        let mut r: Vec<QueuedCall> = Vec::new();
        std::mem::swap(&mut r, &mut self.queue);
        proof {
            assert(q.subrange(0, q.len() as int) =~= q);
            let ns = self.in_flight@;
            let want = old(self)@.in_flight.union(seqs_of(q));
            assert forall|s: u64| ns.contains(s) <==> want.contains(s) by {
                if ns.contains(s) {
                    let a = choose|a: int| 0 <= a < ns.len() && ns[a] == s;
                    if a >= old_in.len() {
                        assert(q[a - old_in.len()].ticket.seq == s);
                    } else {
                        assert(old_in.contains(s));
                    }
                }
                if old_in.contains(s) {
                    let a = choose|a: int| 0 <= a < old_in.len() && old_in[a] == s;
                    assert(ns[a] == s);
                }
                if seqs_of(q).contains(s) {
                    let a = choose|a: int| 0 <= a < q.len() && (#[trigger] q[a]).ticket.seq == s;
                    assert(ns[old_in.len() + a] == s);
                }
            }
            assert(self@.in_flight =~= want);
            assert forall|s: u64| #[trigger] self@.in_flight.contains(s) implies s < self@.next_seq by {
                if old_in.contains(s) {
                    assert(old(self)@.in_flight.contains(s));
                } else {
                    let a = choose|a: int| 0 <= a < q.len() && (#[trigger] q[a]).ticket.seq == s;
                    assert(old(self)@.queued[a].ticket.seq == s);
                }
            }
        }
        r
    }

    /// Finishes the in-flight call numbered `seq`. Returns false, changing
    /// nothing, when no such call is in flight (it was finished already or
    /// never delivered).
    pub fn finish(&mut self, seq: u64) -> (r: bool)
        requires
            old(self).wf(),
        ensures
            final(self).wf(),
            r == old(self)@.in_flight.contains(seq),
            final(self)@ == (ChannelModel { in_flight: old(self)@.in_flight.remove(seq), ..old(self)@ }),
    {
        let mut i: usize = 0;
        while i < self.in_flight.len()
            invariant
                0 <= i <= self.in_flight@.len(),
                forall|a: int| 0 <= a < i ==> self.in_flight@[a] != seq,
                *self == *old(self),
                old(self).wf(),
            decreases self.in_flight@.len() - i,
        {
            if self.in_flight[i] == seq {
                let ghost before = self.in_flight@;
                self.in_flight.remove(i);
                proof {
                    let after = self.in_flight@;
                    assert(after =~= before.remove(i as int));
                    assert forall|s: u64| after.contains(s) <==> (before.contains(s) && s != seq) by {
                        if after.contains(s) {
                            let a = choose|a: int| 0 <= a < after.len() && after[a] == s;
                            if a < i {
                                assert(before[a] == s);
                            } else {
                                assert(before[a + 1] == s);
                            }
                        }
                        if before.contains(s) && s != seq {
                            let a = choose|a: int| 0 <= a < before.len() && before[a] == s;
                            if a < i {
                                assert(after[a] == s);
                            } else {
                                assert(a != i);
                                assert(after[a - 1] == s);
                            }
                        }
                    }
                    assert(self@.in_flight =~= old(self)@.in_flight.remove(seq));
                    assert(before[i as int] == seq);
                    assert(old(self)@.in_flight.contains(seq));
                }
                return true;
            }
            i = i + 1;
        }
        proof {
            assert(!self.in_flight@.contains(seq));
            assert(!self@.in_flight.contains(seq));
            assert(self@.in_flight.remove(seq) =~= self@.in_flight);
        }
        false
    }
}

} // verus!

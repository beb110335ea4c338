use vstd::prelude::*;

use crate::adapter::{
    adapter_wf, deliver_all, delivered, delivery_order, enqueue, finish_call, AdapterModel,
};
use crate::channel::{channel_wf, CallTicket, ChannelModel, Payload};
use crate::hook::{creation_rank, HookKind};

verus! {

/// The number of calls that one tick delivers before those of the channel
/// at creation position `r`.
spec fn calls_before_rank(m: AdapterModel, r: nat) -> int {
    let l0 = m.process_assets.queued.len() as int;
    let l1 = l0 + m.emit.queued.len();
    let l2 = l1 + m.after_emit.queued.len();
    let l3 = l2 + m.this_compilation.queued.len();
    let l4 = l3 + m.compilation.queued.len();
    if r == 0 {
        0
    } else if r == 1 {
        l0
    } else if r == 2 {
        l1
    } else if r == 3 {
        l2
    } else if r == 4 {
        l3
    } else {
        l4
    }
}

/// The call at position `p` of a tick is the call of its own channel at
/// position `p` less the calls delivered before that channel.
proof fn lemma_delivery_position(m: AdapterModel, p: int)
    requires
        adapter_wf(m),
        0 <= p < delivery_order(m).len(),
    ensures
        ({
            let d = delivery_order(m)[p];
            let r = creation_rank(d.ticket.hook);
            let c = m.channel(d.ticket.hook);
            &&& calls_before_rank(m, r) <= p < calls_before_rank(m, r + 1)
            &&& d == c.queued[p - calls_before_rank(m, r)]
        }),
{
    let q0 = m.process_assets.queued;
    let q1 = m.emit.queued;
    let q2 = m.after_emit.queued;
    let q3 = m.this_compilation.queued;
    let q4 = m.compilation.queued;
    lemma_channel_facts(m, HookKind::ProcessAssets);
    lemma_channel_facts(m, HookKind::Emit);
    lemma_channel_facts(m, HookKind::AfterEmit);
    lemma_channel_facts(m, HookKind::ThisCompilation);
    lemma_channel_facts(m, HookKind::Compilation);
    let d = delivery_order(m);
    let l0 = q0.len() as int;
    let l1 = l0 + q1.len();
    let l2 = l1 + q2.len();
    let l3 = l2 + q3.len();
    if p < l0 {
        assert(d[p] == q0[p]);
    } else if p < l1 {
        assert(d[p] == q1[p - l0]);
    } else if p < l2 {
        assert(d[p] == q2[p - l1]);
    } else if p < l3 {
        assert(d[p] == q3[p - l2]);
    } else {
        assert(d[p] == q4[p - l3]);
    }
}

/// What a consistent adapter says of the channel of `k`.
spec fn channel_facts(m: AdapterModel, k: HookKind) -> bool {
    &&& m.channel(k).hook == k
    &&& forall|i: int| 0 <= i < m.channel(k).queued.len()
        ==> (#[trigger] m.channel(k).queued[i]).ticket.hook == k
    &&& forall|i: int, j: int| 0 <= i < j < m.channel(k).queued.len()
        ==> (#[trigger] m.channel(k).queued[i]).ticket.seq < (#[trigger] m.channel(k).queued[j]).ticket.seq
}

proof fn lemma_channel_facts(m: AdapterModel, k: HookKind)
    requires
        adapter_wf(m),
    ensures
        channel_facts(m, k),
{
    assert(channel_wf(m.channel(k)));
}

/// Within one tick the host runs calls in the order in which their channels
/// were created, whatever order the hooks were invoked in: a call of an
/// earlier-created channel never comes after one of a later-created channel.
pub proof fn lemma_delivery_follows_creation_order(m: AdapterModel, i: int, j: int)
    requires
        adapter_wf(m),
        0 <= i < j < delivery_order(m).len(),
    ensures
        creation_rank(delivery_order(m)[i].ticket.hook) <= creation_rank(delivery_order(m)[j].ticket.hook),
{
    lemma_delivery_position(m, i);
    lemma_delivery_position(m, j);
    let ri = creation_rank(delivery_order(m)[i].ticket.hook);
    let rj = creation_rank(delivery_order(m)[j].ticket.hook);
    if ri > rj {
        lemma_calls_before_monotone(m, rj + 1, ri);
    }
}

proof fn lemma_calls_before_monotone(m: AdapterModel, a: nat, b: nat)
    requires
        a <= b,
    ensures
        calls_before_rank(m, a) <= calls_before_rank(m, b),
{
}

/// Calls of one channel reach the host first-in first-out: of two calls of
/// the same hook in a tick, the earlier-enqueued one (lower number) comes first.
pub proof fn lemma_delivery_is_fifo_per_channel(m: AdapterModel, i: int, j: int)
    requires
        adapter_wf(m),
        0 <= i < j < delivery_order(m).len(),
        delivery_order(m)[i].ticket.hook == delivery_order(m)[j].ticket.hook,
    ensures
        delivery_order(m)[i].ticket.seq < delivery_order(m)[j].ticket.seq,
{
    lemma_delivery_position(m, i);
    lemma_delivery_position(m, j);
    let k = delivery_order(m)[i].ticket.hook;
    lemma_channel_facts(m, k);
    let b = calls_before_rank(m, creation_rank(k));
    assert(m.channel(k).queued[i - b] == delivery_order(m)[i]);
    assert(m.channel(k).queued[j - b] == delivery_order(m)[j]);
}

/// Invoking two different hooks in either order leaves the adapter in the
/// same state, so the host sees the same tick either way.
pub proof fn lemma_issue_order_is_irrelevant(
    m: AdapterModel,
    k1: HookKind,
    p1: Payload,
    k2: HookKind,
    p2: Payload,
)
    requires
        k1 != k2,
    ensures
        enqueue(enqueue(m, k1, p1), k2, p2) == enqueue(enqueue(m, k2, p2), k1, p1),
        delivery_order(enqueue(enqueue(m, k1, p1), k2, p2)) == delivery_order(
            enqueue(enqueue(m, k2, p2), k1, p1),
        ),
{
    match k1 {
        HookKind::ProcessAssets => {},
        HookKind::Emit => {},
        HookKind::AfterEmit => {},
        HookKind::ThisCompilation => {},
        HookKind::Compilation => {},
    }
}

/// Whether a channel keeps the host alive has no bearing on what is
/// delivered or finished: the same calls are delivered in the same order,
/// and the same calls stay in flight.
pub proof fn lemma_reference_flag_does_not_affect_delivery(m: AdapterModel, k: HookKind, referenced: bool)
    ensures
        ({
            let m2 = m.with_channel(k, ChannelModel { referenced, ..m.channel(k) });
            &&& delivery_order(m2) == delivery_order(m)
            &&& forall|h: HookKind| #[trigger] deliver_all(m2).channel(h).in_flight
                == deliver_all(m).channel(h).in_flight
            &&& forall|h: HookKind| #[trigger] deliver_all(m2).channel(h).queued
                == deliver_all(m).channel(h).queued
        }),
{
    let m2 = m.with_channel(k, ChannelModel { referenced, ..m.channel(k) });
    match k {
        HookKind::ProcessAssets => {},
        HookKind::Emit => {},
        HookKind::AfterEmit => {},
        HookKind::ThisCompilation => {},
        HookKind::Compilation => {},
    }
    assert forall|h: HookKind| #[trigger] deliver_all(m2).channel(h).in_flight
        == deliver_all(m).channel(h).in_flight by {
        match h {
            HookKind::ProcessAssets => {},
            HookKind::Emit => {},
            HookKind::AfterEmit => {},
            HookKind::ThisCompilation => {},
            HookKind::Compilation => {},
        }
    }
    assert forall|h: HookKind| #[trigger] deliver_all(m2).channel(h).queued
        == deliver_all(m).channel(h).queued by {
        match h {
            HookKind::ProcessAssets => {},
            HookKind::Emit => {},
            HookKind::AfterEmit => {},
            HookKind::ThisCompilation => {},
            HookKind::Compilation => {},
        }
    }
}

/// Channels share no state: enqueueing on, or finishing a call of, another
/// hook leaves the channel of `k` as it was, and a tick treats it on its own.
pub proof fn lemma_channels_are_independent(
    m: AdapterModel,
    k: HookKind,
    h: HookKind,
    p: Payload,
    t: CallTicket,
)
    requires
        h != k,
        t.hook != k,
    ensures
        enqueue(m, h, p).channel(k) == m.channel(k),
        finish_call(m, t).channel(k) == m.channel(k),
        deliver_all(m).channel(k) == delivered(m.channel(k)),
{
    match k {
        HookKind::ProcessAssets => {},
        HookKind::Emit => {},
        HookKind::AfterEmit => {},
        HookKind::ThisCompilation => {},
        HookKind::Compilation => {},
    }
}

/// A call that the host never finishes stays in flight through every tick
/// and every completion of another call; it holds up nothing else: each tick
/// still delivers every queued call of every channel.
pub proof fn lemma_unfinished_call_blocks_nothing(m: AdapterModel, k: HookKind, s: u64, t: CallTicket)
    requires
        m.channel(k).in_flight.contains(s),
        t != (CallTicket { hook: k, seq: s }),
    ensures
        deliver_all(m).channel(k).in_flight.contains(s),
        finish_call(m, t).channel(k).in_flight.contains(s),
        forall|h: HookKind| #[trigger] deliver_all(m).channel(h).queued.len() == 0,
{
    match k {
        HookKind::ProcessAssets => {},
        HookKind::Emit => {},
        HookKind::AfterEmit => {},
        HookKind::ThisCompilation => {},
        HookKind::Compilation => {},
    }
    assert forall|h: HookKind| #[trigger] deliver_all(m).channel(h).queued.len() == 0 by {
        match h {
            HookKind::ProcessAssets => {},
            HookKind::Emit => {},
            HookKind::AfterEmit => {},
            HookKind::ThisCompilation => {},
            HookKind::Compilation => {},
        }
    }
}

} // verus!

use vstd::prelude::*;

use crate::channel::{
    channel_wf, seqs_of, CallChannel, CallTicket, CallbackRef, ChannelModel, Payload, QueuedCall,
    StateHandle,
};
use crate::failure::{convert_outcome, outcome_result, HookError, HostOutcome};
use crate::hook::{creation_rank, HookKind};

verus! {

/// The host callbacks registered for each hook.
#[derive(Clone, Copy, Debug, PartialEq, Eq, Structural)]
pub struct JsHooks {
    pub process_assets: CallbackRef,
    pub this_compilation: CallbackRef,
    pub compilation: CallbackRef,
    pub emit: CallbackRef,
    pub after_emit: CallbackRef,
}

/// Construction failed: the channel of `hook` could not bind to its callback.
#[derive(Clone, Copy, Debug, PartialEq, Eq, Structural)]
pub struct CreateError {
    pub hook: HookKind,
}

/// The abstract state of the adapter: one channel per hook.
pub ghost struct AdapterModel {
    pub process_assets: ChannelModel,
    pub emit: ChannelModel,
    pub after_emit: ChannelModel,
    pub this_compilation: ChannelModel,
    pub compilation: ChannelModel,
}

impl AdapterModel {
    pub open spec fn channel(self, k: HookKind) -> ChannelModel {
        match k {
            HookKind::ProcessAssets => self.process_assets,
            HookKind::Emit => self.emit,
            HookKind::AfterEmit => self.after_emit,
            HookKind::ThisCompilation => self.this_compilation,
            HookKind::Compilation => self.compilation,
        }
    }

    pub open spec fn with_channel(self, k: HookKind, c: ChannelModel) -> AdapterModel {
        match k {
            HookKind::ProcessAssets => AdapterModel { process_assets: c, ..self },
            HookKind::Emit => AdapterModel { emit: c, ..self },
            HookKind::AfterEmit => AdapterModel { after_emit: c, ..self },
            HookKind::ThisCompilation => AdapterModel { this_compilation: c, ..self },
            HookKind::Compilation => AdapterModel { compilation: c, ..self },
        }
    }
}

/// The order in which the adapter creates its channels.
pub open spec fn creation_order() -> Seq<HookKind> {
    seq![
        HookKind::ProcessAssets,
        HookKind::Emit,
        HookKind::AfterEmit,
        HookKind::ThisCompilation,
        HookKind::Compilation,
    ]
}

/// Every channel is consistent and belongs to its own hook.
pub open spec fn adapter_wf(m: AdapterModel) -> bool {
    forall|k: HookKind| #[trigger] channel_wf(m.channel(k)) && m.channel(k).hook == k
}

/// The first hook, in creation order, whose callback is the null reference.
pub open spec fn first_unbindable(hooks: JsHooks) -> Option<HookKind> {
    if hooks.process_assets.handle == 0 {
        Some(HookKind::ProcessAssets)
    } else if hooks.emit.handle == 0 {
        Some(HookKind::Emit)
    } else if hooks.after_emit.handle == 0 {
        Some(HookKind::AfterEmit)
    } else if hooks.this_compilation.handle == 0 {
        Some(HookKind::ThisCompilation)
    } else if hooks.compilation.handle == 0 {
        Some(HookKind::Compilation)
    } else {
        None
    }
}

/// A channel of `k` as construction leaves it: bound, empty and unreferenced.
pub open spec fn fresh_channel(k: HookKind, callback: CallbackRef) -> ChannelModel {
    ChannelModel {
        hook: k,
        callback,
        queued: Seq::empty(),
        in_flight: Set::empty(),
        next_seq: 0,
        referenced: false,
    }
}

/// The adapter as construction leaves it: every channel fresh and bound
/// to the callback registered for its hook.
pub open spec fn fresh_adapter(hooks: JsHooks) -> AdapterModel {
    AdapterModel {
        process_assets: fresh_channel(HookKind::ProcessAssets, hooks.process_assets),
        emit: fresh_channel(HookKind::Emit, hooks.emit),
        after_emit: fresh_channel(HookKind::AfterEmit, hooks.after_emit),
        this_compilation: fresh_channel(HookKind::ThisCompilation, hooks.this_compilation),
        compilation: fresh_channel(HookKind::Compilation, hooks.compilation),
    }
}

/// The state after a call carrying `p` is enqueued on the channel of `k`.
pub open spec fn enqueue(m: AdapterModel, k: HookKind, p: Payload) -> AdapterModel {
    let c = m.channel(k);
    m.with_channel(
        k,
        ChannelModel {
            queued: c.queued.push(QueuedCall { ticket: CallTicket { hook: k, seq: c.next_seq as u64 }, payload: p }),
            next_seq: c.next_seq + 1,
            ..c
        },
    )
}

/// The order in which one scheduling tick hands the queued calls to the host:
/// channel by channel in creation order, each channel's calls oldest first.
pub open spec fn delivery_order(m: AdapterModel) -> Seq<QueuedCall> {
    m.process_assets.queued + m.emit.queued + m.after_emit.queued + m.this_compilation.queued
        + m.compilation.queued
}

/// A channel after its queued calls are handed to the host.
pub open spec fn delivered(c: ChannelModel) -> ChannelModel {
    ChannelModel { queued: Seq::empty(), in_flight: c.in_flight.union(seqs_of(c.queued)), ..c }
}

/// The state after one scheduling tick.
pub open spec fn deliver_all(m: AdapterModel) -> AdapterModel {
    AdapterModel {
        process_assets: delivered(m.process_assets),
        emit: delivered(m.emit),
        after_emit: delivered(m.after_emit),
        this_compilation: delivered(m.this_compilation),
        compilation: delivered(m.compilation),
    }
}

/// The state after the host finishes the call `t`.
pub open spec fn finish_call(m: AdapterModel, t: CallTicket) -> AdapterModel {
    let c = m.channel(t.hook);
    m.with_channel(t.hook, ChannelModel { in_flight: c.in_flight.remove(t.seq), ..c })
}

/// Forwards the pipeline's lifecycle hooks to host callbacks, one call
/// channel per hook.
#[derive(Debug)]
pub struct JsHooksAdapter {
    process_assets_tsfn: CallChannel,
    emit_tsfn: CallChannel,
    after_emit_tsfn: CallChannel,
    this_compilation_tsfn: CallChannel,
    compilation_tsfn: CallChannel,
}

impl View for JsHooksAdapter {
    type V = AdapterModel;

    closed spec fn view(&self) -> AdapterModel {
        AdapterModel {
            process_assets: self.process_assets_tsfn@,
            emit: self.emit_tsfn@,
            after_emit: self.after_emit_tsfn@,
            this_compilation: self.this_compilation_tsfn@,
            compilation: self.compilation_tsfn@,
        }
    }
}

impl JsHooksAdapter {
    pub closed spec fn wf(&self) -> bool {
        &&& self.process_assets_tsfn.wf()
        &&& self.emit_tsfn.wf()
        &&& self.after_emit_tsfn.wf()
        &&& self.this_compilation_tsfn.wf()
        &&& self.compilation_tsfn.wf()
        &&& self.process_assets_tsfn@.hook == HookKind::ProcessAssets
        &&& self.emit_tsfn@.hook == HookKind::Emit
        &&& self.after_emit_tsfn@.hook == HookKind::AfterEmit
        &&& self.this_compilation_tsfn@.hook == HookKind::ThisCompilation
        &&& self.compilation_tsfn@.hook == HookKind::Compilation
        &&& adapter_wf(self@)
    }

    /// The adapter's consistency, stated over its model.
    pub proof fn lemma_wf_model(&self)
        requires
            self.wf(),
        ensures
            adapter_wf(self@),
    {
    }

    /// The plugin name under which the adapter is registered.
    pub fn name(&self) -> (r: &'static str)
        ensures
            r@ == "rspack_plugin_js_hooks_adapter"@,
    {
        "rspack_plugin_js_hooks_adapter"
    }

    /// The hooks in the order in which `from_js_hooks` creates their channels.
    pub fn creation_order() -> (r: Vec<HookKind>)
        ensures
            r@ == creation_order(),
    {
        let r = vec![
            HookKind::ProcessAssets,
            HookKind::Emit,
            HookKind::AfterEmit,
            HookKind::ThisCompilation,
            HookKind::Compilation,
        ];
        assert(r@ =~= creation_order());
        r
    }

    /// Creates one channel per hook, in creation order, and unreferences each
    /// so that pending calls never keep the host process alive. Fails on the
    /// first hook, in that order, whose callback cannot be bound; no adapter
    /// is built then.
    pub fn from_js_hooks(js_hooks: JsHooks) -> (r: Result<JsHooksAdapter, CreateError>)
        ensures
            match first_unbindable(js_hooks) {
                Some(k) => r == Err::<JsHooksAdapter, CreateError>(CreateError { hook: k }),
                None => r matches Ok(a) && a.wf() && a@ == fresh_adapter(js_hooks),
            },
    {
        let mut process_assets_tsfn = match CallChannel::create(HookKind::ProcessAssets, js_hooks.process_assets) {
            Some(c) => c,
            None => return Err(CreateError { hook: HookKind::ProcessAssets }),
        };
        let mut emit_tsfn = match CallChannel::create(HookKind::Emit, js_hooks.emit) {
            Some(c) => c,
            None => return Err(CreateError { hook: HookKind::Emit }),
        };
        let mut after_emit_tsfn = match CallChannel::create(HookKind::AfterEmit, js_hooks.after_emit) {
            Some(c) => c,
            None => return Err(CreateError { hook: HookKind::AfterEmit }),
        };
        let mut this_compilation_tsfn = match CallChannel::create(
            HookKind::ThisCompilation,
            js_hooks.this_compilation,
        ) {
            Some(c) => c,
            None => return Err(CreateError { hook: HookKind::ThisCompilation }),
        };
        let mut compilation_tsfn = match CallChannel::create(HookKind::Compilation, js_hooks.compilation) {
            Some(c) => c,
            None => return Err(CreateError { hook: HookKind::Compilation }),
        };
        process_assets_tsfn.unref();
        emit_tsfn.unref();
        after_emit_tsfn.unref();
        compilation_tsfn.unref();
        this_compilation_tsfn.unref();
        let a = JsHooksAdapter {
            process_assets_tsfn,
            emit_tsfn,
            after_emit_tsfn,
            this_compilation_tsfn,
            compilation_tsfn,
        };
        assert forall|k: HookKind| #[trigger] channel_wf(a@.channel(k)) && a@.channel(k).hook == k by {
            match k {
                HookKind::ProcessAssets => {},
                HookKind::Emit => {},
                HookKind::AfterEmit => {},
                HookKind::ThisCompilation => {},
                HookKind::Compilation => {},
            }
        }
        Ok(a)
    }

    /// Whether the channel of `k` has no call queued and none in flight.
    pub fn is_idle(&self, k: HookKind) -> (r: bool)
        requires
            self.wf(),
        ensures
            r == (self@.channel(k).queued.len() == 0 && self@.channel(k).in_flight.is_empty()),
    {
        match k {
            HookKind::ProcessAssets => self.process_assets_tsfn.is_idle(),
            HookKind::Emit => self.emit_tsfn.is_idle(),
            HookKind::AfterEmit => self.after_emit_tsfn.is_idle(),
            HookKind::ThisCompilation => self.this_compilation_tsfn.is_idle(),
            HookKind::Compilation => self.compilation_tsfn.is_idle(),
        }
    }

    /// Whether the channel of `k` can still number another call.
    pub fn has_capacity(&self, k: HookKind) -> (r: bool)
        ensures
            r == (self@.channel(k).next_seq < u64::MAX),
    {
        match k {
            HookKind::ProcessAssets => self.process_assets_tsfn.has_capacity(),
            HookKind::Emit => self.emit_tsfn.has_capacity(),
            HookKind::AfterEmit => self.after_emit_tsfn.has_capacity(),
            HookKind::ThisCompilation => self.this_compilation_tsfn.has_capacity(),
            HookKind::Compilation => self.compilation_tsfn.has_capacity(),
        }
    }

    /// Whether any pending call holds the host process alive.
    pub fn keeps_host_alive(&self) -> (r: bool)
        requires
            self.wf(),
        ensures
            r == exists|k: HookKind| {
                let c = #[trigger] self@.channel(k);
                c.referenced && !(c.queued.len() == 0 && c.in_flight.is_empty())
            },
    {
        let pa = self.process_assets_tsfn.keeps_host_alive();
        let e = self.emit_tsfn.keeps_host_alive();
        let ae = self.after_emit_tsfn.keeps_host_alive();
        let tc = self.this_compilation_tsfn.keeps_host_alive();
        let c = self.compilation_tsfn.keeps_host_alive();
        let r = pa || e || ae || tc || c;
        proof {
            if pa {
                assert(self@.channel(HookKind::ProcessAssets) == self.process_assets_tsfn@);
            } else if e {
                assert(self@.channel(HookKind::Emit) == self.emit_tsfn@);
            } else if ae {
                assert(self@.channel(HookKind::AfterEmit) == self.after_emit_tsfn@);
            } else if tc {
                assert(self@.channel(HookKind::ThisCompilation) == self.this_compilation_tsfn@);
            } else if c {
                assert(self@.channel(HookKind::Compilation) == self.compilation_tsfn@);
            } else {
                assert forall|k: HookKind| !{
                    let ch = #[trigger] self@.channel(k);
                    ch.referenced && !(ch.queued.len() == 0 && ch.in_flight.is_empty())
                } by {
                    match k {
                        HookKind::ProcessAssets => {},
                        HookKind::Emit => {},
                        HookKind::AfterEmit => {},
                        HookKind::ThisCompilation => {},
                        HookKind::Compilation => {},
                    }
                }
            }
        }
        r
    }

    /// Enqueues a call carrying `payload` on the channel of `k`.
    fn enqueue_on(&mut self, k: HookKind, payload: Payload) -> (r: CallTicket)
        requires
            old(self).wf(),
            old(self)@.channel(k).next_seq < u64::MAX,
        ensures
            final(self).wf(),
            r == (CallTicket { hook: k, seq: old(self)@.channel(k).next_seq as u64 }),
            final(self)@ == enqueue(old(self)@, k, payload),
    {
        let r = match k {
            HookKind::ProcessAssets => self.process_assets_tsfn.call(payload),
            HookKind::Emit => self.emit_tsfn.call(payload),
            HookKind::AfterEmit => self.after_emit_tsfn.call(payload),
            HookKind::ThisCompilation => self.this_compilation_tsfn.call(payload),
            HookKind::Compilation => self.compilation_tsfn.call(payload),
        };
        proof {
            self.lemma_reestablish();
            match k {
                HookKind::ProcessAssets => {},
                HookKind::Emit => {},
                HookKind::AfterEmit => {},
                HookKind::ThisCompilation => {},
                HookKind::Compilation => {},
            }
        }
        r
    }

    /// The model invariant follows from the channels' own.
    proof fn lemma_reestablish(&self)
        requires
            self.process_assets_tsfn.wf(),
            self.emit_tsfn.wf(),
            self.after_emit_tsfn.wf(),
            self.this_compilation_tsfn.wf(),
            self.compilation_tsfn.wf(),
            self.process_assets_tsfn@.hook == HookKind::ProcessAssets,
            self.emit_tsfn@.hook == HookKind::Emit,
            self.after_emit_tsfn@.hook == HookKind::AfterEmit,
            self.this_compilation_tsfn@.hook == HookKind::ThisCompilation,
            self.compilation_tsfn@.hook == HookKind::Compilation,
        ensures
            self.wf(),
    {
        self.process_assets_tsfn.lemma_wf_model();
        self.emit_tsfn.lemma_wf_model();
        self.after_emit_tsfn.lemma_wf_model();
        self.this_compilation_tsfn.lemma_wf_model();
        self.compilation_tsfn.lemma_wf_model();
        assert forall|k: HookKind| #[trigger] channel_wf(self@.channel(k)) && self@.channel(k).hook == k by {
            match k {
                HookKind::ProcessAssets => {},
                HookKind::Emit => {},
                HookKind::AfterEmit => {},
                HookKind::ThisCompilation => {},
                HookKind::Compilation => {},
            }
        }
    }

    /// Hands the host a live view of the new compilation state. A call on
    /// this channel must have finished before the next one is made, since
    /// the view is valid for one call only.
    pub fn compilation(&mut self, state: StateHandle) -> (r: CallTicket)
        requires
            old(self).wf(),
            old(self)@.compilation.queued.len() == 0,
            old(self)@.compilation.in_flight.is_empty(),
            old(self)@.compilation.next_seq < u64::MAX,
        ensures
            final(self).wf(),
            r == (CallTicket { hook: HookKind::Compilation, seq: old(self)@.compilation.next_seq as u64 }),
            final(self)@ == enqueue(old(self)@, HookKind::Compilation, Payload::State(state)),
    {
        self.enqueue_on(HookKind::Compilation, Payload::State(state))
    }

    /// Like `compilation`, for the hook that runs first on a new compilation.
    pub fn this_compilation(&mut self, state: StateHandle) -> (r: CallTicket)
        requires
            old(self).wf(),
            old(self)@.this_compilation.queued.len() == 0,
            old(self)@.this_compilation.in_flight.is_empty(),
            old(self)@.this_compilation.next_seq < u64::MAX,
        ensures
            final(self).wf(),
            r == (CallTicket { hook: HookKind::ThisCompilation, seq: old(self)@.this_compilation.next_seq as u64 }),
            final(self)@ == enqueue(old(self)@, HookKind::ThisCompilation, Payload::State(state)),
    {
        self.enqueue_on(HookKind::ThisCompilation, Payload::State(state))
    }

    /// Notifies the host that assets are about to be finalized. No asset data
    /// travels with the call: the host reads what it needs on its own side.
    pub fn process_assets(&mut self) -> (r: CallTicket)
        requires
            old(self).wf(),
            old(self)@.process_assets.next_seq < u64::MAX,
        ensures
            final(self).wf(),
            r == (CallTicket { hook: HookKind::ProcessAssets, seq: old(self)@.process_assets.next_seq as u64 }),
            final(self)@ == enqueue(old(self)@, HookKind::ProcessAssets, Payload::Unit),
    {
        self.enqueue_on(HookKind::ProcessAssets, Payload::Unit)
    }

    /// Notifies the host that assets were written.
    pub fn emit(&mut self) -> (r: CallTicket)
        requires
            old(self).wf(),
            old(self)@.emit.next_seq < u64::MAX,
        ensures
            final(self).wf(),
            r == (CallTicket { hook: HookKind::Emit, seq: old(self)@.emit.next_seq as u64 }),
            final(self)@ == enqueue(old(self)@, HookKind::Emit, Payload::Unit),
    {
        self.enqueue_on(HookKind::Emit, Payload::Unit)
    }

    /// Notifies the host that emission has completed.
    pub fn after_emit(&mut self) -> (r: CallTicket)
        requires
            old(self).wf(),
            old(self)@.after_emit.next_seq < u64::MAX,
        ensures
            final(self).wf(),
            r == (CallTicket { hook: HookKind::AfterEmit, seq: old(self)@.after_emit.next_seq as u64 }),
            final(self)@ == enqueue(old(self)@, HookKind::AfterEmit, Payload::Unit),
    {
        self.enqueue_on(HookKind::AfterEmit, Payload::Unit)
    }

    /// One scheduling tick of the host: every queued call is handed over,
    /// channel by channel in creation order, oldest first within a channel.
    /// The calls are then in flight until `complete` finishes them.
    pub fn dispatch(&mut self) -> (r: Vec<QueuedCall>)
        requires
            old(self).wf(),
        ensures
            final(self).wf(),
            r@ == delivery_order(old(self)@),
            final(self)@ == deliver_all(old(self)@),
    {
        let mut r = self.process_assets_tsfn.take_queued();
        let mut e = self.emit_tsfn.take_queued();
        r.append(&mut e);
        let mut ae = self.after_emit_tsfn.take_queued();
        r.append(&mut ae);
        let mut tc = self.this_compilation_tsfn.take_queued();
        r.append(&mut tc);
        let mut c = self.compilation_tsfn.take_queued();
        r.append(&mut c);
        proof {
            self.lemma_reestablish();
        }
        r
    }

    /// The host finished the call `ticket` with `outcome`: returns the hook
    /// operation's result. Returns `None`, changing nothing, when that call is
    /// not in flight (never delivered, or finished already).
    pub fn complete(&mut self, ticket: CallTicket, outcome: HostOutcome) -> (r: Option<Result<(), HookError>>)
        requires
            old(self).wf(),
        ensures
            final(self).wf(),
            r is Some <==> old(self)@.channel(ticket.hook).in_flight.contains(ticket.seq),
            final(self)@ == finish_call(old(self)@, ticket),
            r matches Some(res) ==> match outcome_result(ticket.hook, outcome) {
                Ok(()) => res is Ok,
                Err((kind, text)) => res matches Err(e) && e.hook == ticket.hook && e.kind == kind
                    && e.detail@ == text,
            },
    {
        let found = match ticket.hook {
            HookKind::ProcessAssets => self.process_assets_tsfn.finish(ticket.seq),
            HookKind::Emit => self.emit_tsfn.finish(ticket.seq),
            HookKind::AfterEmit => self.after_emit_tsfn.finish(ticket.seq),
            HookKind::ThisCompilation => self.this_compilation_tsfn.finish(ticket.seq),
            HookKind::Compilation => self.compilation_tsfn.finish(ticket.seq),
        };
        proof {
            self.lemma_reestablish();
            match ticket.hook {
                HookKind::ProcessAssets => {},
                HookKind::Emit => {},
                HookKind::AfterEmit => {},
                HookKind::ThisCompilation => {},
                HookKind::Compilation => {},
            }
        }
        if found {
            Some(convert_outcome(ticket.hook, outcome))
        } else {
            None
        }
    }
}

} // verus!

use node_binding::{
    convert_outcome, CallTicket, CallbackRef, CreateError, FailureKind, HookKind, HostOutcome,
    JsHooks, JsHooksAdapter, Payload, StateHandle,
};

fn working_hooks() -> JsHooks {
    JsHooks {
        process_assets: CallbackRef { handle: 1 },
        this_compilation: CallbackRef { handle: 2 },
        compilation: CallbackRef { handle: 3 },
        emit: CallbackRef { handle: 4 },
        after_emit: CallbackRef { handle: 5 },
    }
}

fn adapter() -> JsHooksAdapter {
    match JsHooksAdapter::from_js_hooks(working_hooks()) {
        Ok(a) => a,
        Err(e) => panic!("construction failed on {:?}", e.hook),
    }
}

fn hooks_of(calls: &[node_binding::QueuedCall]) -> Vec<HookKind> {
    calls.iter().map(|c| c.ticket.hook).collect()
}

#[test]
fn this_compilation_runs_before_compilation_in_one_tick() {
    let mut a = adapter();
    let empty = StateHandle { slot: 0 };
    let t1 = a.this_compilation(empty);
    let t2 = a.compilation(empty);
    let delivered = a.dispatch();
    assert_eq!(
        hooks_of(&delivered),
        vec![HookKind::ThisCompilation, HookKind::Compilation]
    );
    assert!(a.complete(t1, HostOutcome::Resolved).unwrap().is_ok());
    assert!(a.complete(t2, HostOutcome::Resolved).unwrap().is_ok());
}

#[test]
fn creation_order_wins_over_issue_order() {
    let mut a = adapter();
    let state = StateHandle { slot: 7 };
    a.compilation(state);
    a.this_compilation(state);
    a.after_emit();
    a.process_assets();
    let delivered = a.dispatch();
    assert_eq!(
        hooks_of(&delivered),
        vec![
            HookKind::ProcessAssets,
            HookKind::AfterEmit,
            HookKind::ThisCompilation,
            HookKind::Compilation
        ]
    );
    assert_eq!(delivered[2].payload, Payload::State(state));
    assert_eq!(delivered[0].payload, Payload::Unit);
}

#[test]
fn emit_failure_names_hook_and_host_text() {
    let mut a = adapter();
    let t = a.emit();
    a.dispatch();
    let res = a.complete(t, HostOutcome::Rejected("disk full".to_string())).unwrap();
    let e = res.unwrap_err();
    let msg = e.message();
    assert!(msg.contains("emit"));
    assert!(msg.contains("disk full"));
    assert_eq!(msg, "Failed to call emit: disk full");
    assert_eq!(e.kind, FailureKind::Callback);
    assert_eq!(e.hook, HookKind::Emit);
}

#[test]
fn unconvertible_result_is_a_conversion_failure() {
    let res = convert_outcome(
        HookKind::AfterEmit,
        HostOutcome::Unconvertible("a number".to_string()),
    );
    let e = res.unwrap_err();
    assert_eq!(e.kind, FailureKind::Conversion);
    assert_eq!(e.message(), "Failed to convert the result of after_emit: a number");
}

#[test]
fn resolved_outcome_converts_to_success() {
    assert!(convert_outcome(HookKind::ProcessAssets, HostOutcome::Resolved).is_ok());
}

#[test]
fn calls_of_one_channel_are_fifo() {
    let mut a = adapter();
    let t0 = a.process_assets();
    let t1 = a.process_assets();
    let t2 = a.process_assets();
    assert_eq!(t0, CallTicket { hook: HookKind::ProcessAssets, seq: 0 });
    assert_eq!(t1.seq, 1);
    assert_eq!(t2.seq, 2);
    let delivered = a.dispatch();
    let seqs: Vec<u64> = delivered.iter().map(|c| c.ticket.seq).collect();
    assert_eq!(seqs, vec![0, 1, 2]);
}

#[test]
fn single_call_is_delivered() {
    let mut a = adapter();
    let t = a.after_emit();
    let delivered = a.dispatch();
    assert_eq!(delivered.len(), 1);
    assert_eq!(delivered[0].ticket, t);
}

#[test]
fn unreferenced_channels_still_deliver_and_finish() {
    let mut a = adapter();
    assert!(!a.keeps_host_alive());
    let t = a.emit();
    assert!(!a.keeps_host_alive());
    assert_eq!(a.dispatch().len(), 1);
    assert!(a.complete(t, HostOutcome::Resolved).is_some());
    assert!(a.is_idle(HookKind::Emit));
}

#[test]
fn unresolved_call_does_not_block_other_channels() {
    let mut a = adapter();
    let stuck = a.process_assets();
    a.dispatch();
    let t = a.emit();
    let delivered = a.dispatch();
    assert_eq!(hooks_of(&delivered), vec![HookKind::Emit]);
    assert!(a.complete(t, HostOutcome::Resolved).unwrap().is_ok());
    assert!(!a.is_idle(HookKind::ProcessAssets));
    assert!(a.is_idle(HookKind::Emit));
    assert!(a.complete(stuck, HostOutcome::Resolved).unwrap().is_ok());
    assert!(a.is_idle(HookKind::ProcessAssets));
}

#[test]
fn completion_is_taken_once() {
    let mut a = adapter();
    let t = a.emit();
    assert!(a.complete(t, HostOutcome::Resolved).is_none());
    a.dispatch();
    assert!(a.complete(t, HostOutcome::Resolved).is_some());
    assert!(a.complete(t, HostOutcome::Resolved).is_none());
}

#[test]
fn null_callback_fails_construction_at_first_in_creation_order() {
    let mut hooks = working_hooks();
    hooks.compilation = CallbackRef { handle: 0 };
    hooks.emit = CallbackRef { handle: 0 };
    let r = JsHooksAdapter::from_js_hooks(hooks);
    assert_eq!(r.err(), Some(CreateError { hook: HookKind::Emit }));

    let mut hooks = working_hooks();
    hooks.compilation = CallbackRef { handle: 0 };
    let r = JsHooksAdapter::from_js_hooks(hooks);
    assert_eq!(r.err(), Some(CreateError { hook: HookKind::Compilation }));
}

#[test]
fn fresh_adapter_is_idle_and_named() {
    let a = adapter();
    assert_eq!(a.name(), "rspack_plugin_js_hooks_adapter");
    for k in JsHooksAdapter::creation_order() {
        assert!(a.is_idle(k));
        assert!(a.has_capacity(k));
    }
    assert_eq!(
        JsHooksAdapter::creation_order(),
        vec![
            HookKind::ProcessAssets,
            HookKind::Emit,
            HookKind::AfterEmit,
            HookKind::ThisCompilation,
            HookKind::Compilation
        ]
    );
}

#[test]
fn hook_kind_names_and_ranks() {
    assert_eq!(HookKind::ProcessAssets.name(), "process_assets");
    assert_eq!(HookKind::ThisCompilation.name(), "this_compilation");
    assert_eq!(HookKind::Compilation.creation_rank(), 4);
    assert_eq!(HookKind::Emit.creation_rank(), 1);
    assert!(HookKind::Compilation.carries_state());
    assert!(!HookKind::Emit.carries_state());
}

#[test]
fn empty_tick_delivers_nothing() {
    let mut a = adapter();
    assert!(a.dispatch().is_empty());
}

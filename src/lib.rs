//! Bridge between a native build pipeline's lifecycle hooks and callbacks
//! registered by a single-threaded host runtime.
//!
//! Each hook owns one call channel. Native hook invocations enqueue calls on
//! their channel; a host scheduling tick delivers every queued call, channel
//! by channel in creation order and first-in first-out within a channel; the
//! host's completion of a call becomes the hook operation's result.
mod adapter;
mod channel;
mod failure;
mod guarantees;
mod hook;

pub use adapter::{
    adapter_wf, creation_order, deliver_all, delivered, delivery_order, enqueue,
    finish_call, first_unbindable, fresh_adapter, fresh_channel, AdapterModel, CreateError, JsHooks,
    JsHooksAdapter,
};
pub use channel::{
    channel_wf, seqs_of, CallChannel, CallTicket, CallbackRef, ChannelModel, Payload, QueuedCall,
    StateHandle,
};
pub use failure::{
    contains_run, convert_outcome, failure_message, failure_prefix, lemma_failure_message_names_hook_and_detail,
    outcome_result, FailureKind, HookError, HostOutcome,
};
pub use guarantees::{
    lemma_channels_are_independent, lemma_delivery_follows_creation_order,
    lemma_delivery_is_fifo_per_channel, lemma_issue_order_is_irrelevant,
    lemma_reference_flag_does_not_affect_delivery, lemma_unfinished_call_blocks_nothing,
};
pub use hook::{carries_state, creation_rank, hook_name, HookKind};

use vstd::prelude::*;

use crate::hook::{hook_name, HookKind};

verus! {

/// How the host finished a delivered call.
#[derive(Debug)]
pub enum HostOutcome {
    /// The callback completed; its return value converts to unit.
    Resolved,
    /// The callback reported failure with the given description.
    Rejected(String),
    /// The callback returned a value that does not convert to the hook's
    /// result type; the text describes the value.
    Unconvertible(String),
}

/// Which step of a hook call failed.
#[derive(Clone, Copy, Debug, PartialEq, Eq, Structural)]
pub enum FailureKind {
    /// The host callback reported failure.
    Callback,
    /// The host's return value could not be converted back.
    Conversion,
}

/// A failed hook call: the hook, the failing step and the host's text.
#[derive(Debug)]
pub struct HookError {
    pub hook: HookKind,
    pub kind: FailureKind,
    pub detail: String,
}

/// The leading words of a failure message of the given kind.
pub open spec fn failure_prefix(kind: FailureKind) -> Seq<char> {
    match kind {
        FailureKind::Callback => "Failed to call "@,
        FailureKind::Conversion => "Failed to convert the result of "@,
    }
}

/// The full text of a failure: the step, the hook's name and the host's text.
pub open spec fn failure_message(hook: HookKind, kind: FailureKind, detail: Seq<char>) -> Seq<char> {
    failure_prefix(kind) + hook_name(hook) + ": "@ + detail
}

/// The result of a hook operation whose host call finished with `outcome`.
pub open spec fn outcome_result(hook: HookKind, outcome: HostOutcome) -> Result<(), (FailureKind, Seq<char>)> {
    match outcome {
        HostOutcome::Resolved => Ok(()),
        HostOutcome::Rejected(text) => Err((FailureKind::Callback, text@)),
        HostOutcome::Unconvertible(text) => Err((FailureKind::Conversion, text@)),
    }
}

/// `t` occurs in `s` as a contiguous run.
pub open spec fn contains_run(s: Seq<char>, t: Seq<char>) -> bool {
    exists|i: int| 0 <= i && i + t.len() <= s.len() && #[trigger] s.subrange(i, i + t.len()) == t
}

impl HookError {
    /// The message that the pipeline reports for this failure.
    pub fn message(&self) -> (r: String)
        ensures
            r@ == failure_message(self.hook, self.kind, self.detail@),
    {
        let prefix = match self.kind {
            FailureKind::Callback => "Failed to call ",
            FailureKind::Conversion => "Failed to convert the result of ",
        };
        let mut r = String::from_str(prefix);
        r.append(self.hook.name());
        r.append(": ");
        r.append(self.detail.as_str());
        r
    }
}

/// Converts the host's completion of a call on `hook` into the hook
/// operation's result; a failure carries the hook and the host's text.
pub fn convert_outcome(hook: HookKind, outcome: HostOutcome) -> (r: Result<(), HookError>)
    ensures
        match outcome_result(hook, outcome) {
            Ok(()) => r is Ok,
            Err((kind, text)) => r matches Err(e) && e.hook == hook && e.kind == kind && e.detail@ == text,
        },
{
    match outcome {
        HostOutcome::Resolved => Ok(()),
        HostOutcome::Rejected(text) => Err(HookError { hook, kind: FailureKind::Callback, detail: text }),
        HostOutcome::Unconvertible(text) => Err(HookError { hook, kind: FailureKind::Conversion, detail: text }),
    }
}

/// A failure's message names the hook and repeats the host's text.
pub proof fn lemma_failure_message_names_hook_and_detail(e: HookError)
    ensures
        contains_run(failure_message(e.hook, e.kind, e.detail@), hook_name(e.hook)),
        contains_run(failure_message(e.hook, e.kind, e.detail@), e.detail@),
{
    let m = failure_message(e.hook, e.kind, e.detail@);
    let p = failure_prefix(e.kind);
    let n = hook_name(e.hook);
    let d = e.detail@;
    let sep = ": "@;
    assert(m == p + n + sep + d);
    let a: int = p.len() as int;
    assert(m.subrange(a, a + n.len()) =~= n);
    let b: int = a + n.len() + sep.len();
    assert(m.subrange(b, b + d.len()) =~= d);
}

} // verus!

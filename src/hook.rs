use vstd::prelude::*;

verus! {

/// The lifecycle points of the pipeline that are forwarded to the host.
#[derive(Clone, Copy, Debug, PartialEq, Eq, Structural)]
pub enum HookKind {
    ProcessAssets,
    Emit,
    AfterEmit,
    ThisCompilation,
    Compilation,
}

/// Position of a hook's channel in the order in which the adapter creates
/// its channels. Calls enqueued within one scheduling tick reach the host in
/// this order.
pub open spec fn creation_rank(k: HookKind) -> nat {
    match k {
        HookKind::ProcessAssets => 0,
        HookKind::Emit => 1,
        HookKind::AfterEmit => 2,
        HookKind::ThisCompilation => 3,
        HookKind::Compilation => 4,
    }
}

/// The hook's name as it appears in error messages.
pub open spec fn hook_name(k: HookKind) -> Seq<char> {
    match k {
        HookKind::ProcessAssets => "process_assets"@,
        HookKind::Emit => "emit"@,
        HookKind::AfterEmit => "after_emit"@,
        HookKind::ThisCompilation => "this_compilation"@,
        HookKind::Compilation => "compilation"@,
    }
}

/// Whether the hook hands the host a live view of the compilation state.
pub open spec fn carries_state(k: HookKind) -> bool {
    k == HookKind::ThisCompilation || k == HookKind::Compilation
}

impl HookKind {
    pub fn creation_rank(&self) -> (r: u8)
        ensures
            r as nat == creation_rank(*self),
    {
        match self {
            HookKind::ProcessAssets => 0,
            HookKind::Emit => 1,
            HookKind::AfterEmit => 2,
            HookKind::ThisCompilation => 3,
            HookKind::Compilation => 4,
        }
    }

    pub fn name(&self) -> (r: &'static str)
        ensures
            r@ == hook_name(*self),
    {
        match self {
            HookKind::ProcessAssets => "process_assets",
            HookKind::Emit => "emit",
            HookKind::AfterEmit => "after_emit",
            HookKind::ThisCompilation => "this_compilation",
            HookKind::Compilation => "compilation",
        }
    }

    pub fn carries_state(&self) -> (r: bool)
        ensures
            r == carries_state(*self),
    {
        match self {
            HookKind::ThisCompilation | HookKind::Compilation => true,
            _ => false,
        }
    }
}

} // verus!

//! Decisions of the plugin hook dispatcher. A dispatch runs the plugins of
//! one hook strictly one after another in registration order; after each
//! plugin reports, the dispatcher decides whether to invoke the next one or
//! to stop, and with what result.
use vstd::prelude::*;

verus! {

/// How a hook's results combine.
#[derive(Clone, Copy, Debug, PartialEq, Eq, Structural)]
pub enum DispatchKind {
    /// Every plugin runs; the first failure stops the dispatch.
    Fold,
    /// The first plugin that returns a result stops the dispatch with it.
    FirstApplicable,
}

/// What one plugin's hook reported.
#[derive(Clone, Copy, Debug, PartialEq, Eq, Structural)]
pub enum HookOutcome {
    /// It succeeded without a result of its own.
    Continue,
    /// It succeeded with a result.
    Applied,
    /// It failed.
    Failed,
}

/// What the dispatcher does next.
#[derive(Clone, Copy, Debug, PartialEq, Eq, Structural)]
pub enum DispatchAction {
    /// Invoke the hook of the plugin at this position.
    Invoke(usize),
    /// Stop: every plugin ran (fold) or none returned a result.
    Finished,
    /// Stop with the result of the plugin at this position.
    Applied(usize),
    /// Stop and hand on the failure of the plugin at this position.
    Failed(usize),
}

/// The first action of a dispatch over `total` plugins.
pub open spec fn start_action(total: nat) -> DispatchAction {
    if total > 0 {
        DispatchAction::Invoke(0)
    } else {
        DispatchAction::Finished
    }
}

/// The action after the plugin at `current` reported `outcome`.
pub open spec fn next_action(
    kind: DispatchKind,
    total: nat,
    current: nat,
    outcome: HookOutcome,
) -> DispatchAction {
    match outcome {
        HookOutcome::Failed => DispatchAction::Failed(current as usize),
        HookOutcome::Applied if kind == DispatchKind::FirstApplicable => DispatchAction::Applied(
            current as usize,
        ),
        _ => if current + 1 < total {
            DispatchAction::Invoke((current + 1) as usize)
        } else {
            DispatchAction::Finished
        },
    }
}

/// The actions that follow once the plugin at `current` is running and the
/// plugins report `outcomes` in turn.
pub open spec fn trace_from(
    kind: DispatchKind,
    total: nat,
    current: nat,
    outcomes: Seq<HookOutcome>,
) -> Seq<DispatchAction>
    decreases outcomes.len(),
{
    if outcomes.len() == 0 {
        Seq::empty()
    } else {
        let a = next_action(kind, total, current, outcomes[0]);
        match a {
            DispatchAction::Invoke(j) => seq![a] + trace_from(
                kind,
                total,
                j as nat,
                outcomes.drop_first(),
            ),
            _ => seq![a],
        }
    }
}

/// Every action of a dispatch over `total` plugins that report `outcomes`.
pub open spec fn dispatch_trace(
    kind: DispatchKind,
    total: nat,
    outcomes: Seq<HookOutcome>,
) -> Seq<DispatchAction> {
    match start_action(total) {
        DispatchAction::Invoke(_) => seq![start_action(total)] + trace_from(kind, total, 0, outcomes),
        _ => seq![start_action(total)],
    }
}

/// One dispatch of one hook.
#[derive(Clone, Copy, Debug)]
pub struct HookDispatch {
    kind: DispatchKind,
    total: usize,
    current: usize,
    running: bool,
}

impl HookDispatch {
    pub closed spec fn kind(&self) -> DispatchKind {
        self.kind
    }

    /// Number of registered plugins.
    pub closed spec fn total(&self) -> nat {
        self.total as nat
    }

    /// Position of the plugin whose report is awaited.
    pub closed spec fn current(&self) -> nat {
        self.current as nat
    }

    /// Whether a plugin's report is awaited.
    pub closed spec fn running(&self) -> bool {
        self.running
    }

    pub closed spec fn wf(&self) -> bool {
        self.running ==> self.current < self.total
    }

    /// Begins a dispatch over `total` plugins.
    pub fn start(kind: DispatchKind, total: usize) -> (r: (HookDispatch, DispatchAction))
        ensures
            r.0.wf(),
            r.0.kind() == kind,
            r.0.total() == total,
            r.1 == start_action(total as nat),
            r.0.running() == (total > 0),
            r.0.current() == 0,
    {
        let d = HookDispatch { kind, total, current: 0, running: total > 0 };
        if total > 0 {
            (d, DispatchAction::Invoke(0))
        } else {
            (d, DispatchAction::Finished)
        }
    }

    /// Takes the report of the running plugin and decides what follows.
    pub fn on_outcome(&mut self, outcome: HookOutcome) -> (r: DispatchAction)
        requires
            old(self).wf(),
            old(self).running(),
        ensures
            final(self).wf(),
            r == next_action(old(self).kind(), old(self).total(), old(self).current(), outcome),
            final(self).kind() == old(self).kind(),
            final(self).total() == old(self).total(),
            final(self).running() == (r is Invoke),
            r is Invoke ==> final(self).current() == r->Invoke_0,
    {
        let i = self.current;
        match outcome {
            HookOutcome::Failed => {
                self.running = false;
                DispatchAction::Failed(i)
            },
            HookOutcome::Applied if self.kind == DispatchKind::FirstApplicable => {
                self.running = false;
                DispatchAction::Applied(i)
            },
            _ => {
                if i + 1 < self.total {
                    self.current = i + 1;
                    DispatchAction::Invoke(i + 1)
                } else {
                    self.running = false;
                    DispatchAction::Finished
                }
            },
        }
    }
}

/// How serious a diagnostic is.
#[derive(Clone, Copy, Debug, PartialEq, Eq, Structural)]
pub enum Severity {
    Error,
    Warning,
}

/// A structured compiler message.
#[derive(Clone, Debug)]
pub struct Diagnostic {
    pub severity: Severity,
    pub message: String,
    /// Start and end offsets in the source, if known.
    pub span: Option<(u64, u64)>,
}

/// Diagnostics collected between two drains, in the order they came.
#[derive(Debug)]
pub struct DiagnosticsBuffer {
    items: Vec<Diagnostic>,
}

impl View for DiagnosticsBuffer {
    type V = Seq<Diagnostic>;

    closed spec fn view(&self) -> Seq<Diagnostic> {
        self.items@
    }
}

impl DiagnosticsBuffer {
    pub fn new() -> (r: Self)
        ensures
            r@ == Seq::<Diagnostic>::empty(),
    {
        DiagnosticsBuffer { items: Vec::new() }
    }

    /// Appends a diagnostic.
    pub fn push(&mut self, diagnostic: Diagnostic)
        ensures
            final(self)@ == old(self)@.push(diagnostic),
    {
        self.items.push(diagnostic);
    }

    pub fn len(&self) -> (r: usize)
        ensures
            r == self@.len(),
    {
        self.items.len()
    }

    /// Hands out everything collected and leaves the buffer empty.
    pub fn take(&mut self) -> (r: Vec<Diagnostic>)
        ensures
            r@ == old(self)@,
            final(self)@ == Seq::<Diagnostic>::empty(),
    {
        let mut out: Vec<Diagnostic> = Vec::new();
        std::mem::swap(&mut out, &mut self.items);
        out
    }
}

} // verus!

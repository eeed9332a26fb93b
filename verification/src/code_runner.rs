//! The debug execution controller: the single authority over whether and
//! how the program under debug is being executed.
//!
//! The controller is a message-driven state machine in one of three run
//! states: `Idle` (no session), `Paused` (a session waiting for an explicit
//! action) and `WaitingToContinue` (a session whose next step is already
//! scheduled).  The host dispatches one [`DebugAction`] at a time through
//! [`CodeRunner::update`] and performs the returned [`Effect`]:
//! [`Effect::Dispatch`] feeds the carried action straight back,
//! [`Effect::Schedule`] feeds it back after the inter-step delay that keeps
//! a single-threaded host responsive during a continuous run.
//!
//! The two continuation actions, [`DebugAction::StepInner`] and
//! [`DebugAction::ContinueChain`], exist only to reuse this one dispatch
//! path for the controller's own follow-up work: they carry a marker type
//! that cannot be named outside the crate, so outside callers can obtain
//! them only from an [`Effect`] the controller itself produced.  A
//! scheduled continuation cannot be revoked, so one may arrive after its
//! session was torn down; the controller recognises it as stale by
//! re-checking its state and ignores it.  Dispatching `StepInner` with no
//! session, however, is a protocol violation that the contract of
//! [`CodeRunner::update`] excludes; an unverified host must treat it as
//! fatal.

use crate::io::custom_reader::normalize_input;
use crate::io::custom_reader::CustomReader;
use crate::io::custom_writer::CustomWriter;
use crate::oracle::Snapshot;
use crate::oracle::SteppingOracle;
use crate::oracle::TerminalState;
use crate::private::PrivateZst;
use crate::store::OutputComponentErrors;
use crate::store::Store;
use vstd::prelude::*;

verus! {

use vstd::string::StringExecFns;
use vstd::utf8::encode_utf8;

/// Milliseconds the host should wait before feeding back a scheduled
/// continuation, yielding control so the UI stays responsive.
pub const DELAY_BETWEEN_STEPS_MS: u64 = 10;

/// A control action.  `Start` and `Step` carry the program source; a live
/// session keeps the program it was started with and ignores the carried
/// source.  `StepInner` and `ContinueChain` are the controller's internal
/// continuations: unconstructible outside the crate.
#[derive(Debug)]
pub enum DebugAction {
    Start(String),
    Step(String),
    Stop,
    StepInner(PrivateZst),
    ContinueChain(PrivateZst),
}

/// What the host must do after an update.
#[derive(Debug)]
pub enum Effect {
    /// Settle: nothing to feed back.
    Nothing,
    /// Feed the action back immediately, before any other work.
    Dispatch(DebugAction),
    /// Feed the action back after the inter-step delay.
    Schedule(DebugAction),
}

/// The run mode of a live session.
#[derive(Clone, Copy, Debug, PartialEq, Eq, Structural)]
pub enum StateKind {
    /// A continuation is already scheduled.
    WaitOnContinue,
    /// The next action must be explicitly requested.
    Pause,
}

/// A live pairing of an oracle with its I/O adapters.  At most one exists
/// at a time, owned by the controller.
pub struct Session<O> {
    pub kind: StateKind,
    pub oracle: O,
    pub reader: CustomReader,
    pub writer: CustomWriter,
}

/// The debug execution controller.
pub struct CodeRunner<O> {
    stdout: String,
    debug: Option<Session<O>>,
    store: Store,
    /// Every terminal snapshot published so far: the register file and the
    /// error each session ended with.
    terminal_log: Ghost<Seq<(Seq<i64>, Option<OutputComponentErrors>)>>,
    /// Every per-step snapshot published so far: register file and line.
    snapshot_log: Ghost<Seq<(Seq<i64>, usize)>>,
    /// Every output notification delivered to the console so far, in order.
    notification_log: Ghost<Seq<Seq<char>>>,
}

/// How output notifications render on the console: each is appended to the
/// text so far, followed by one line feed.
pub open spec fn render_notifications(base: Seq<char>, msgs: Seq<Seq<char>>) -> Seq<char>
    decreases msgs.len(),
{
    if msgs.len() == 0 {
        base
    } else {
        render_notifications(base + msgs[0] + seq!['\n'], msgs.skip(1))
    }
}

impl<O> CodeRunner<O> {
    /// No session exists.
    pub closed spec fn idle(&self) -> bool {
        self.debug is None
    }

    /// A session exists and waits for an explicit action.
    pub closed spec fn paused(&self) -> bool {
        match self.debug {
            Some(s) => s.kind == StateKind::Pause,
            None => false,
        }
    }

    /// A session exists and its continuation is already scheduled.
    pub closed spec fn waiting(&self) -> bool {
        match self.debug {
            Some(s) => s.kind == StateKind::WaitOnContinue,
            None => false,
        }
    }

    /// The observer-visible shared state.
    pub closed spec fn spec_store(&self) -> Store {
        self.store
    }

    /// The console text accumulated from output notifications.
    pub closed spec fn spec_stdout(&self) -> Seq<char> {
        self.stdout@
    }

    /// The live session's pending input bytes (empty when idle).
    pub closed spec fn session_input(&self) -> Seq<u8> {
        match self.debug {
            Some(s) => s.reader@,
            None => Seq::empty(),
        }
    }

    /// The live session's undrained output notifications (empty when
    /// idle).
    pub closed spec fn session_output(&self) -> Seq<Seq<char>> {
        match self.debug {
            Some(s) => s.writer@,
            None => Seq::empty(),
        }
    }

    /// All terminal snapshots published so far.
    pub closed spec fn terminals(&self) -> Seq<(Seq<i64>, Option<OutputComponentErrors>)> {
        self.terminal_log@
    }

    /// All per-step snapshots published so far.
    pub closed spec fn snapshots(&self) -> Seq<(Seq<i64>, usize)> {
        self.snapshot_log@
    }

    /// All output notifications delivered to the console so far.
    pub closed spec fn notifications(&self) -> Seq<Seq<char>> {
        self.notification_log@
    }
}

/// What a transition that drained the session's writer says of the console:
/// the notification record grew by exactly what was drained, and the console
/// text grew by exactly its rendering.
pub open spec fn console_extended<O>(pre: CodeRunner<O>, post: CodeRunner<O>) -> bool {
    &&& pre.notifications().is_prefix_of(post.notifications())
    &&& post.spec_stdout() == render_notifications(
        pre.spec_stdout(),
        post.notifications().skip(pre.notifications().len() as int),
    )
}

/// How the oracle's terminal error surfaces to observers: mapped
/// variant-for-variant into the console error type, `None` for a normal
/// halt.
pub open spec fn terminal_error_mapped(error: Option<String>) -> Option<OutputComponentErrors> {
    match error {
        Some(m) => Some(OutputComponentErrors::InterpretError(m)),
        None => None,
    }
}

/// Nothing observable changed and nothing was dispatched: the action was
/// coalesced (an execution is already in flight) or stale.
pub open spec fn no_op_step<O>(pre: CodeRunner<O>, post: CodeRunner<O>, r: Effect) -> bool {
    &&& post == pre
    &&& r is Nothing
}

/// `Stop`: the controller returns to `Idle`.  A live session is torn down
/// and exactly one terminal snapshot is published: the final register file
/// and, when the run faulted, its error; the editor becomes writable and
/// the debug line is cleared.  With no session the action is a true no-op.
pub open spec fn stop_step<O>(pre: CodeRunner<O>, post: CodeRunner<O>, r: Effect) -> bool {
    &&& post.idle()
    &&& r is Nothing
    &&& if pre.idle() {
        post == pre
    } else {
        &&& post.spec_store().read_only == false
        &&& post.spec_store().current_debug_line == 0
        &&& (post.spec_store().error is None || post.spec_store().error matches Some(
            OutputComponentErrors::InterpretError(_),
        ))
        &&& post.terminals() == pre.terminals().push(
            (post.spec_store().regs(), post.spec_store().error),
        )
        &&& post.snapshots() == pre.snapshots()
        &&& console_extended(pre, post)
    }
}

/// `Start` or `Step` from `Idle`: the console is cleared and the source is
/// handed to the oracle.  On success (`r` dispatches the continuation that
/// will drive the first step) a session exists in the requested mode, its
/// input adapter holds the normalized stdin text, its output adapter is
/// empty, and the editor is read only.  On a parse failure (`r` is
/// `Nothing`) the controller stays `Idle` and publishes the parse error.
pub open spec fn launch_step<O>(
    pre: CodeRunner<O>,
    post: CodeRunner<O>,
    r: Effect,
    kind: StateKind,
) -> bool {
    &&& post.terminals() == pre.terminals()
    &&& post.snapshots() == pre.snapshots()
    &&& post.notifications() == pre.notifications()
    &&& post.spec_stdout() == Seq::<char>::empty()
    &&& post.spec_store().regs() == pre.spec_store().regs()
    &&& post.spec_store().current_debug_line == pre.spec_store().current_debug_line
    &&& match r {
        Effect::Dispatch(a) => {
            &&& if kind == StateKind::WaitOnContinue {
                a is ContinueChain && post.waiting()
            } else {
                a is StepInner && post.paused()
            }
            &&& post.spec_store().read_only == true
            &&& post.spec_store().error == pre.spec_store().error
            &&& post.session_input() == normalize_input(
                encode_utf8(pre.spec_store().stdin@),
            )
            &&& post.session_output() == Seq::<Seq<char>>::empty()
        },
        Effect::Nothing => {
            &&& post.idle()
            &&& post.spec_store().error matches Some(OutputComponentErrors::ParseError(_))
            &&& post.spec_store().read_only == pre.spec_store().read_only
        },
        Effect::Schedule(_) => false,
    }
}

/// One explicitly requested step of a paused session.  When the oracle
/// makes progress (`r` is `Nothing`) exactly one snapshot is published:
/// the store now shows its register file and line.  When the oracle
/// reports termination, `Stop` is dispatched and the store is untouched;
/// either way the session stays, paused.
pub open spec fn single_step<O>(pre: CodeRunner<O>, post: CodeRunner<O>, r: Effect) -> bool {
    &&& post.paused()
    &&& post.terminals() == pre.terminals()
    &&& post.spec_store().error == pre.spec_store().error
    &&& post.spec_store().read_only == pre.spec_store().read_only
    &&& console_extended(pre, post)
    &&& post.session_output() == Seq::<Seq<char>>::empty()
    &&& match r {
        Effect::Nothing => post.snapshots() == pre.snapshots().push(
            (post.spec_store().regs(), post.spec_store().current_debug_line),
        ),
        Effect::Dispatch(a) => {
            &&& a is Stop
            &&& post.snapshots() == pre.snapshots()
            &&& post.spec_store().regs() == pre.spec_store().regs()
            &&& post.spec_store().current_debug_line == pre.spec_store().current_debug_line
        },
        Effect::Schedule(_) => false,
    }
}

/// One step of a continuous run.  When the oracle makes progress, exactly
/// one snapshot is published and the breakpoint set decides what follows:
/// on a breakpoint line the session pauses and settles (`r` is `Nothing`),
/// otherwise the next continuation is scheduled and the session keeps
/// waiting.  On termination `Stop` is dispatched, the store is untouched
/// and the session stays for the stop to consume.
pub open spec fn continue_step<O>(pre: CodeRunner<O>, post: CodeRunner<O>, r: Effect) -> bool {
    &&& post.terminals() == pre.terminals()
    &&& post.spec_store().error == pre.spec_store().error
    &&& post.spec_store().read_only == pre.spec_store().read_only
    &&& console_extended(pre, post)
    &&& post.session_output() == Seq::<Seq<char>>::empty()
    &&& match r {
        Effect::Nothing => {
            &&& post.paused()
            &&& post.spec_store().breakpoints@.contains(post.spec_store().current_debug_line)
            &&& post.snapshots() == pre.snapshots().push(
                (post.spec_store().regs(), post.spec_store().current_debug_line),
            )
        },
        Effect::Schedule(a) => {
            &&& a is ContinueChain
            &&& post.waiting()
            &&& !post.spec_store().breakpoints@.contains(post.spec_store().current_debug_line)
            &&& post.snapshots() == pre.snapshots().push(
                (post.spec_store().regs(), post.spec_store().current_debug_line),
            )
        },
        Effect::Dispatch(a) => {
            &&& a is Stop
            &&& post.paused()
            &&& post.snapshots() == pre.snapshots()
            &&& post.spec_store().regs() == pre.spec_store().regs()
            &&& post.spec_store().current_debug_line == pre.spec_store().current_debug_line
        },
    }
}

/// The action is one the controller accepts in this state.  The only
/// rejected pair is `StepInner` with no session: a continuation outlived
/// session teardown in a way the state machine does not anticipate, which
/// an unverified host must treat as fatal.
pub open spec fn action_allowed<O>(pre: CodeRunner<O>, action: DebugAction) -> bool {
    !(pre.idle() && action matches DebugAction::StepInner(_))
}

/// The controller's complete transition table.  The breakpoint set and the
/// stdin text belong to the UI: no transition changes them.
pub open spec fn spec_transition<O>(
    pre: CodeRunner<O>,
    post: CodeRunner<O>,
    action: DebugAction,
    r: Effect,
) -> bool {
    &&& post.spec_store().breakpoints == pre.spec_store().breakpoints
    &&& post.spec_store().stdin == pre.spec_store().stdin
    &&& match action {
        DebugAction::Stop => stop_step(pre, post, r),
        DebugAction::Start(_) => if pre.idle() {
            launch_step(pre, post, r, StateKind::WaitOnContinue)
        } else if pre.paused() {
            continue_step(pre, post, r)
        } else {
            no_op_step(pre, post, r)
        },
        DebugAction::Step(_) => if pre.idle() {
            launch_step(pre, post, r, StateKind::Pause)
        } else if pre.paused() {
            single_step(pre, post, r)
        } else {
            no_op_step(pre, post, r)
        },
        DebugAction::StepInner(_) => if pre.idle() {
            false
        } else if pre.paused() {
            single_step(pre, post, r)
        } else {
            no_op_step(pre, post, r)
        },
        DebugAction::ContinueChain(_) => if pre.waiting() {
            continue_step(pre, post, r)
        } else {
            no_op_step(pre, post, r)
        },
    }
}

impl<O: SteppingOracle> CodeRunner<O> {
    /// An idle controller with a fresh store and an empty console.
    pub fn new() -> (r: CodeRunner<O>)
        ensures
            r.idle(),
            r.spec_store().regs() == Seq::<i64>::empty(),
            !r.spec_store().read_only,
            r.spec_store().current_debug_line == 0,
            r.spec_store().error is None,
            r.spec_store().breakpoints@ == Seq::<usize>::empty(),
            r.spec_store().stdin@ == Seq::<char>::empty(),
            r.spec_stdout() == Seq::<char>::empty(),
            r.terminals() == Seq::<(Seq<i64>, Option<OutputComponentErrors>)>::empty(),
            r.snapshots() == Seq::<(Seq<i64>, usize)>::empty(),
            r.notifications() == Seq::<Seq<char>>::empty(),
    {
        CodeRunner {
            stdout: String::new(),
            debug: None,
            store: Store::new(),
            terminal_log: Ghost(Seq::empty()),
            snapshot_log: Ghost(Seq::empty()),
            notification_log: Ghost(Seq::empty()),
        }
    }

    /// The observer-visible shared state.
    pub fn store(&self) -> (r: &Store)
        ensures
            *r == self.spec_store(),
    {
        &self.store
    }

    /// The console text.
    pub fn stdout_text(&self) -> (r: &String)
        ensures
            r@ == self.spec_stdout(),
    {
        &self.stdout
    }

    pub fn is_idle(&self) -> (r: bool)
        ensures
            r == self.idle(),
    {
        self.debug.is_none()
    }

    pub fn is_paused(&self) -> (r: bool)
        ensures
            r == self.paused(),
    {
        match &self.debug {
            Some(s) => s.kind == StateKind::Pause,
            None => false,
        }
    }

    pub fn is_waiting(&self) -> (r: bool)
        ensures
            r == self.waiting(),
    {
        match &self.debug {
            Some(s) => s.kind == StateKind::WaitOnContinue,
            None => false,
        }
    }

    /// Replaces the stdin text the next session will read.
    pub fn set_stdin(&mut self, text: String)
        ensures
            final(self).spec_store().stdin == text,
            final(self).spec_store() == (Store {
                stdin: text,
                ..old(self).spec_store()
            }),
            final(self).idle() == old(self).idle(),
            final(self).paused() == old(self).paused(),
            final(self).waiting() == old(self).waiting(),
            final(self).spec_stdout() == old(self).spec_stdout(),
            final(self).session_input() == old(self).session_input(),
            final(self).session_output() == old(self).session_output(),
            final(self).terminals() == old(self).terminals(),
            final(self).snapshots() == old(self).snapshots(),
            final(self).notifications() == old(self).notifications(),
    {
        self.store.stdin = text;
    }

    /// Replaces the breakpoint set consulted by continuous runs.
    pub fn set_breakpoints(&mut self, lines: Vec<usize>)
        ensures
            final(self).spec_store().breakpoints == lines,
            final(self).spec_store() == (Store {
                breakpoints: lines,
                ..old(self).spec_store()
            }),
            final(self).idle() == old(self).idle(),
            final(self).paused() == old(self).paused(),
            final(self).waiting() == old(self).waiting(),
            final(self).spec_stdout() == old(self).spec_stdout(),
            final(self).session_input() == old(self).session_input(),
            final(self).session_output() == old(self).session_output(),
            final(self).terminals() == old(self).terminals(),
            final(self).snapshots() == old(self).snapshots(),
            final(self).notifications() == old(self).notifications(),
    {
        self.store.breakpoints = lines;
    }

    /// Dispatches one action: the whole transition table in one call.  The
    /// returned effect is the continuation the host must feed back, if
    /// any.
    pub fn update(&mut self, action: DebugAction) -> (r: Effect)
        requires
            action_allowed(*old(self), action),
        ensures
            spec_transition(*old(self), *final(self), action, r),
    {
        let taken = self.debug.take();
        let (next, eff) = match action {
            DebugAction::Stop => self.debug_stop(taken),
            DebugAction::Start(code) => match taken {
                None => self.debug_start(code, StateKind::WaitOnContinue),
                Some(s) => match s.kind {
                    StateKind::Pause => self.debug_continue(s),
                    StateKind::WaitOnContinue => (Some(s), Effect::Nothing),
                },
            },
            DebugAction::Step(code) => match taken {
                None => self.debug_start(code, StateKind::Pause),
                Some(s) => match s.kind {
                    StateKind::Pause => self.debug_step(s),
                    StateKind::WaitOnContinue => (Some(s), Effect::Nothing),
                },
            },
            DebugAction::StepInner(_) => match taken {
                // Excluded by the precondition: a stray inner step with no
                // session is a protocol violation.
                None => (None, Effect::Nothing),
                Some(s) => match s.kind {
                    StateKind::Pause => self.debug_step(s),
                    StateKind::WaitOnContinue => (Some(s), Effect::Nothing),
                },
            },
            DebugAction::ContinueChain(_) => match taken {
                None => (None, Effect::Nothing),
                Some(s) => match s.kind {
                    StateKind::WaitOnContinue => self.debug_continue(s),
                    StateKind::Pause => (Some(s), Effect::Nothing),
                },
            },
        };
        self.debug = next;
        eff
    }

    /// Clears the console, hands `code` to the oracle and, on success,
    /// creates the one session in the requested mode and dispatches the
    /// continuation that will drive its first step.
    fn debug_start(&mut self, code: String, kind: StateKind) -> (res: (
        Option<Session<O>>,
        Effect,
    ))
        requires
            old(self).debug is None,
        ensures
            final(self).debug is None,
            final(self).store.breakpoints == old(self).store.breakpoints,
            final(self).store.stdin == old(self).store.stdin,
            final(self).store.regs() == old(self).store.regs(),
            final(self).store.current_debug_line == old(self).store.current_debug_line,
            final(self).stdout@ == Seq::<char>::empty(),
            final(self).terminal_log == old(self).terminal_log,
            final(self).snapshot_log == old(self).snapshot_log,
            final(self).notification_log == old(self).notification_log,
            match res.1 {
                Effect::Dispatch(a) => {
                    &&& (if kind == StateKind::WaitOnContinue {
                        a is ContinueChain
                    } else {
                        a is StepInner
                    })
                    &&& res.0 matches Some(s) && s.kind == kind && s.reader@ == normalize_input(
                        encode_utf8(old(self).store.stdin@),
                    ) && s.writer@ == Seq::<Seq<char>>::empty()
                    &&& final(self).store.read_only == true
                    &&& final(self).store.error == old(self).store.error
                },
                Effect::Nothing => {
                    &&& res.0 is None
                    &&& final(self).store.error matches Some(OutputComponentErrors::ParseError(_))
                    &&& final(self).store.read_only == old(self).store.read_only
                },
                Effect::Schedule(_) => false,
            },
    {
        self.stdout = String::new();
        match O::from_source(code.as_str()) {
            Ok(oracle) => {
                let reader = CustomReader::new(self.store.stdin.as_str());
                let writer = CustomWriter::new();
                self.store.read_only = true;
                let message = if kind == StateKind::WaitOnContinue {
                    DebugAction::ContinueChain(PrivateZst)
                } else {
                    DebugAction::StepInner(PrivateZst)
                };
                (Some(Session { kind, oracle, reader, writer }), Effect::Dispatch(message))
            },
            Err(e) => {
                self.store.error = Some(OutputComponentErrors::ParseError(e));
                (None, Effect::Nothing)
            },
        }
    }

    /// Executes exactly one oracle step for an explicitly requested step
    /// action; publishes its snapshot, or dispatches `Stop` on
    /// termination.
    fn debug_step(&mut self, session: Session<O>) -> (res: (Option<Session<O>>, Effect))
        requires
            old(self).debug is None,
        ensures
            final(self).debug is None,
            final(self).store.breakpoints == old(self).store.breakpoints,
            final(self).store.stdin == old(self).store.stdin,
            final(self).store.error == old(self).store.error,
            final(self).store.read_only == old(self).store.read_only,
            final(self).terminal_log == old(self).terminal_log,
            old(self).notification_log@.is_prefix_of(final(self).notification_log@),
            final(self).stdout@ == render_notifications(
                old(self).stdout@,
                final(self).notification_log@.skip(old(self).notification_log@.len() as int),
            ),
            res.0 matches Some(s) && s.kind == StateKind::Pause && s.writer@ == Seq::<
                Seq<char>,
            >::empty(),
            match res.1 {
                Effect::Nothing => final(self).snapshot_log@ == old(self).snapshot_log@.push(
                    (final(self).store.regs(), final(self).store.current_debug_line),
                ),
                Effect::Dispatch(a) => {
                    &&& a is Stop
                    &&& final(self).snapshot_log == old(self).snapshot_log
                    &&& final(self).store.regs() == old(self).store.regs()
                    &&& final(self).store.current_debug_line == old(self).store.current_debug_line
                },
                Effect::Schedule(_) => false,
            },
    {
        let Session { kind: _, mut oracle, mut reader, mut writer } = session;
        let outcome = oracle.step(&mut reader, &mut writer);
        let ghost drained = writer@;
        self.absorb_output(&mut writer);
        proof {
            assert((old(self).notification_log@ + drained).subrange(
                0,
                old(self).notification_log@.len() as int,
            ) =~= old(self).notification_log@);
            assert((old(self).notification_log@ + drained).skip(
                old(self).notification_log@.len() as int,
            ) =~= drained);
        }
        let eff = match outcome {
            Some(snapshot) => {
                self.publish_snapshot(snapshot);
                Effect::Nothing
            },
            None => Effect::Dispatch(DebugAction::Stop),
        };
        (Some(Session { kind: StateKind::Pause, oracle, reader, writer }), eff)
    }

    /// Executes one oracle step of a continuous run: pauses at a
    /// breakpoint, schedules the next continuation otherwise, and
    /// dispatches `Stop` on termination.
    fn debug_continue(&mut self, session: Session<O>) -> (res: (Option<Session<O>>, Effect))
        requires
            old(self).debug is None,
        ensures
            final(self).debug is None,
            final(self).store.breakpoints == old(self).store.breakpoints,
            final(self).store.stdin == old(self).store.stdin,
            final(self).store.error == old(self).store.error,
            final(self).store.read_only == old(self).store.read_only,
            final(self).terminal_log == old(self).terminal_log,
            old(self).notification_log@.is_prefix_of(final(self).notification_log@),
            final(self).stdout@ == render_notifications(
                old(self).stdout@,
                final(self).notification_log@.skip(old(self).notification_log@.len() as int),
            ),
            (res.0 matches Some(s) ==> s.writer@ == Seq::<Seq<char>>::empty()),
            match res.1 {
                Effect::Nothing => {
                    &&& res.0 matches Some(s) && s.kind == StateKind::Pause
                    &&& final(self).store.breakpoints@.contains(
                        final(self).store.current_debug_line,
                    )
                    &&& final(self).snapshot_log@ == old(self).snapshot_log@.push(
                        (final(self).store.regs(), final(self).store.current_debug_line),
                    )
                },
                Effect::Schedule(a) => {
                    &&& a is ContinueChain
                    &&& res.0 matches Some(s) && s.kind == StateKind::WaitOnContinue
                    &&& !final(self).store.breakpoints@.contains(
                        final(self).store.current_debug_line,
                    )
                    &&& final(self).snapshot_log@ == old(self).snapshot_log@.push(
                        (final(self).store.regs(), final(self).store.current_debug_line),
                    )
                },
                Effect::Dispatch(a) => {
                    &&& a is Stop
                    &&& res.0 matches Some(s) && s.kind == StateKind::Pause
                    &&& final(self).snapshot_log == old(self).snapshot_log
                    &&& final(self).store.regs() == old(self).store.regs()
                    &&& final(self).store.current_debug_line == old(self).store.current_debug_line
                },
            },
    {
        let Session { kind: _, mut oracle, mut reader, mut writer } = session;
        let outcome = oracle.step(&mut reader, &mut writer);
        let ghost drained = writer@;
        self.absorb_output(&mut writer);
        proof {
            assert((old(self).notification_log@ + drained).subrange(
                0,
                old(self).notification_log@.len() as int,
            ) =~= old(self).notification_log@);
            assert((old(self).notification_log@ + drained).skip(
                old(self).notification_log@.len() as int,
            ) =~= drained);
        }
        match outcome {
            None => (
                (Some(Session { kind: StateKind::Pause, oracle, reader, writer })),
                Effect::Dispatch(DebugAction::Stop),
            ),
            Some(snapshot) => {
                let line = snapshot.line;
                let at_breakpoint = self.store.has_breakpoint(line);
                self.publish_snapshot(snapshot);
                if at_breakpoint {
                    (
                        Some(Session { kind: StateKind::Pause, oracle, reader, writer }),
                        Effect::Nothing,
                    )
                } else {
                    (
                        Some(Session { kind: StateKind::WaitOnContinue, oracle, reader, writer }),
                        Effect::Schedule(DebugAction::ContinueChain(PrivateZst)),
                    )
                }
            },
        }
    }

    /// Tears a session down, if one is given: drains its remaining output,
    /// consumes the oracle and publishes the terminal snapshot.
    fn debug_stop(&mut self, debug: Option<Session<O>>) -> (res: (Option<Session<O>>, Effect))
        requires
            old(self).debug is None,
        ensures
            final(self).debug is None,
            res.0 is None,
            res.1 is Nothing,
            final(self).store.breakpoints == old(self).store.breakpoints,
            final(self).store.stdin == old(self).store.stdin,
            match debug {
                None => *final(self) == *old(self),
                Some(_) => {
                    &&& final(self).store.read_only == false
                    &&& final(self).store.current_debug_line == 0
                    &&& (final(self).store.error is None || final(self).store.error matches Some(
                        OutputComponentErrors::InterpretError(_),
                    ))
                    &&& final(self).terminal_log@ == old(self).terminal_log@.push(
                        (final(self).store.regs(), final(self).store.error),
                    )
                    &&& final(self).snapshot_log == old(self).snapshot_log
                    &&& old(self).notification_log@.is_prefix_of(final(self).notification_log@)
                    &&& final(self).stdout@ == render_notifications(
                        old(self).stdout@,
                        final(self).notification_log@.skip(
                            old(self).notification_log@.len() as int,
                        ),
                    )
                },
            },
    {
        match debug {
            None => {
                proof {
                    assert(*self == *old(self));
                }
                (None, Effect::Nothing)
            },
            Some(session) => {
                let Session { kind: _, oracle, reader: _, mut writer } = session;
                let ghost drained = writer@;
                self.absorb_output(&mut writer);
                proof {
                    assert((old(self).notification_log@ + drained).subrange(
                        0,
                        old(self).notification_log@.len() as int,
                    ) =~= old(self).notification_log@);
                    assert((old(self).notification_log@ + drained).skip(
                        old(self).notification_log@.len() as int,
                    ) =~= drained);
                }
                let terminal = oracle.finish();
                self.publish_terminal(terminal);
                (None, Effect::Nothing)
            },
        }
    }

    /// Publishes exactly the snapshot the oracle reported: the store shows
    /// its register file and line, and the snapshot record grows by exactly
    /// that pair.  This is the whole hand-on, verified for every value the
    /// oracle may return.
    fn publish_snapshot(&mut self, snapshot: Snapshot)
        ensures
            final(self).store.regs() == snapshot.registers@,
            final(self).store.current_debug_line == snapshot.line,
            final(self).store.read_only == old(self).store.read_only,
            final(self).store.error == old(self).store.error,
            final(self).store.breakpoints == old(self).store.breakpoints,
            final(self).store.stdin == old(self).store.stdin,
            final(self).snapshot_log@ == old(self).snapshot_log@.push(
                (snapshot.registers@, snapshot.line),
            ),
            final(self).stdout == old(self).stdout,
            final(self).debug == old(self).debug,
            final(self).terminal_log == old(self).terminal_log,
            final(self).notification_log == old(self).notification_log,
    {
        let Snapshot { registers, line } = snapshot;
        self.store.set_registers(registers);
        self.store.current_debug_line = line;
        self.snapshot_log = Ghost(
            self.snapshot_log@.push((self.store.regs(), self.store.current_debug_line)),
        );
    }

    /// Publishes exactly the terminal snapshot the oracle ended with: the
    /// store shows its register file, the editor becomes writable, the
    /// debug line clears, the published error is the oracle's terminal
    /// error mapped variant-for-variant (`None` for a normal halt), and the
    /// terminal record grows by exactly that pair.  This is the whole
    /// hand-on, verified for every value the oracle may return.
    fn publish_terminal(&mut self, terminal: TerminalState)
        ensures
            final(self).store.regs() == terminal.registers@,
            final(self).store.error == terminal_error_mapped(terminal.error),
            final(self).store.read_only == false,
            final(self).store.current_debug_line == 0,
            final(self).store.breakpoints == old(self).store.breakpoints,
            final(self).store.stdin == old(self).store.stdin,
            final(self).terminal_log@ == old(self).terminal_log@.push(
                (terminal.registers@, terminal_error_mapped(terminal.error)),
            ),
            final(self).stdout == old(self).stdout,
            final(self).debug == old(self).debug,
            final(self).snapshot_log == old(self).snapshot_log,
            final(self).notification_log == old(self).notification_log,
    {
        let TerminalState { registers, error } = terminal;
        self.store.set_registers(registers);
        self.store.read_only = false;
        self.store.current_debug_line = 0;
        self.store.error = match error {
            Some(msg) => Some(OutputComponentErrors::InterpretError(msg)),
            None => None,
        };
        self.terminal_log = Ghost(
            self.terminal_log@.push((self.store.regs(), self.store.error)),
        );
    }

    /// Renders every pending output notification on the console — each one
    /// appended followed by one line feed, oldest first — records the
    /// delivery in the notification log, and leaves the writer's queue
    /// empty.
    fn absorb_output(&mut self, writer: &mut CustomWriter)
        ensures
            final(writer)@ == Seq::<Seq<char>>::empty(),
            final(self).stdout@ == render_notifications(old(self).stdout@, old(writer)@),
            final(self).notification_log@ == old(self).notification_log@ + old(writer)@,
            final(self).debug == old(self).debug,
            final(self).store == old(self).store,
            final(self).terminal_log == old(self).terminal_log,
            final(self).snapshot_log == old(self).snapshot_log,
    {
        let messages = writer.take_messages();
        let ghost msgs = messages.deep_view();
        self.notification_log = Ghost(self.notification_log@ + msgs);
        let n = messages.len();
        let mut i: usize = 0;
        proof {
            assert(msgs.skip(0) =~= msgs);
        }
        while i < n
            invariant
                i <= n,
                n == messages@.len(),
                msgs == messages.deep_view(),
                render_notifications(old(self).stdout@, msgs) == render_notifications(
                    self.stdout@,
                    msgs.skip(i as int),
                ),
                self.debug == old(self).debug,
                self.store == old(self).store,
                self.terminal_log == old(self).terminal_log,
                self.snapshot_log == old(self).snapshot_log,
                self.notification_log@ == old(self).notification_log@ + msgs,
            decreases n - i,
        {
            let ghost before = self.stdout@;
            self.stdout.append(messages[i].as_str());
            self.stdout.append("\n");
            proof {
                reveal_strlit("\n");
                assert(msgs[i as int] == messages@[i as int]@);
                assert(("\n")@ =~= seq!['\n']);
                assert(self.stdout@ =~= (before + msgs[i as int]) + seq!['\n']);
                assert(msgs.skip(i as int)[0] == msgs[i as int]);
                assert(msgs.skip(i as int).skip(1) =~= msgs.skip(i + 1 as int));
                assert(render_notifications(before, msgs.skip(i as int)) == render_notifications(
                    (before + msgs[i as int]) + seq!['\n'],
                    msgs.skip(i + 1 as int),
                ));
            }
            i += 1;
        }
        proof {
            assert(msgs.skip(n as int) =~= Seq::<Seq<char>>::empty());
        }
    }
}

/// One delivered notification renders as its text followed by one line
/// feed: the console rule for a single observed write.
pub proof fn lemma_render_one_notification(base: Seq<char>, m: Seq<char>)
    ensures
        render_notifications(base, seq![m]) == base + m + seq!['\n'],
{
    assert(seq![m].skip(1) =~= Seq::<Seq<char>>::empty());
    assert(seq![m][0] == m);
    assert(render_notifications(base + m + seq!['\n'], Seq::<Seq<char>>::empty()) == base + m
        + seq!['\n']);
}

/// Every write the interpreter performs reaches the observer, in order:
/// unless the action launches a new session (which clears the console
/// first), the console text grows by exactly the rendering of the
/// notifications the transition delivered.
pub proof fn lemma_output_reaches_console<O>(
    pre: CodeRunner<O>,
    post: CodeRunner<O>,
    a: DebugAction,
    r: Effect,
)
    requires
        spec_transition(pre, post, a, r),
        action_allowed(pre, a),
        !pre.idle() || a is Stop || (a matches DebugAction::ContinueChain(_)),
    ensures
        console_extended(pre, post),
{
    if post == pre {
        assert(post.notifications().skip(pre.notifications().len() as int) =~= Seq::<
            Seq<char>,
        >::empty());
        assert(pre.notifications().subrange(0, pre.notifications().len() as int)
            =~= pre.notifications());
    }
}

/// The controller is always in exactly one of its three run states: idle,
/// paused, or waiting to continue.  Mode and session presence cannot
/// disagree.
pub proof fn lemma_state_trichotomy<O>(c: &CodeRunner<O>)
    ensures
        c.idle() || c.paused() || c.waiting(),
        !(c.idle() && c.paused()),
        !(c.idle() && c.waiting()),
        !(c.paused() && c.waiting()),
{
}

/// `Stop` from any state lands in `Idle`.  It publishes exactly one
/// terminal snapshot when a session existed, and publishes nothing —
/// changes nothing at all — when the controller was already idle.
pub proof fn lemma_stop_always_idles<O>(pre: CodeRunner<O>, post: CodeRunner<O>, r: Effect)
    requires
        stop_step(pre, post, r),
    ensures
        post.idle(),
        r is Nothing,
        !pre.idle() ==> post.terminals() == pre.terminals().push(
            (post.spec_store().regs(), post.spec_store().error),
        ),
        pre.idle() ==> post == pre,
        pre.idle() ==> post.terminals() == pre.terminals() && post.snapshots() == pre.snapshots()
            && post.spec_stdout() == pre.spec_stdout() && post.spec_store() == pre.spec_store(),
{
}

/// Issuing `Stop` twice in a row is the same as issuing it once: the
/// second stop finds the controller idle and is a true no-op.
pub proof fn lemma_stop_idempotent<O>(
    c0: CodeRunner<O>,
    c1: CodeRunner<O>,
    c2: CodeRunner<O>,
    r1: Effect,
    r2: Effect,
)
    requires
        stop_step(c0, c1, r1),
        stop_step(c1, c2, r2),
    ensures
        c2 == c1,
        r2 is Nothing,
{
}

/// A continuation that fires after `Stop` has already torn its session
/// down is stale: it neither reactivates a session nor changes anything,
/// and it is an accepted action, not a protocol violation.
pub proof fn lemma_stale_continuation_is_no_op<O>(
    c0: CodeRunner<O>,
    c1: CodeRunner<O>,
    c2: CodeRunner<O>,
    r1: Effect,
    a: DebugAction,
    r2: Effect,
)
    requires
        stop_step(c0, c1, r1),
        a matches DebugAction::ContinueChain(_),
        spec_transition(c1, c2, a, r2),
    ensures
        action_allowed(c1, a),
        c2 == c1,
        c2.idle(),
        r2 is Nothing,
{
}

/// A continuous-run step that made progress pauses the session exactly
/// when the snapshot's line is in the breakpoint set; otherwise the chain
/// keeps going.  Either way the session survives, so a pause is resumable.
pub proof fn lemma_breakpoint_pause<O>(
    pre: CodeRunner<O>,
    post: CodeRunner<O>,
    a: DebugAction,
    r: Effect,
)
    requires
        pre.waiting(),
        a matches DebugAction::ContinueChain(_),
        spec_transition(pre, post, a, r),
    ensures
        r is Nothing ==> post.paused() && post.spec_store().breakpoints@.contains(
            post.spec_store().current_debug_line,
        ),
        r matches Effect::Schedule(_) ==> post.waiting()
            && !post.spec_store().breakpoints@.contains(post.spec_store().current_debug_line),
        post.paused() || post.waiting(),
{
}

/// An explicitly requested step of a paused session publishes exactly one
/// snapshot, unless the oracle reports termination, in which case it
/// publishes none and dispatches `Stop`.
pub proof fn lemma_single_step_emission<O>(
    pre: CodeRunner<O>,
    post: CodeRunner<O>,
    a: DebugAction,
    r: Effect,
)
    requires
        pre.paused(),
        (a matches DebugAction::Step(_)) || (a matches DebugAction::StepInner(_)),
        spec_transition(pre, post, a, r),
    ensures
        r is Nothing ==> post.snapshots() == pre.snapshots().push(
            (post.spec_store().regs(), post.spec_store().current_debug_line),
        ),
        r matches Effect::Dispatch(act) ==> act is Stop && post.snapshots() == pre.snapshots(),
        post.paused(),
{
}

} // verus!

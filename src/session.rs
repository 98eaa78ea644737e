//! Session state: listening status, the views, the motion prefix and the
//! continuation scheduler.
use vstd::prelude::*;

use crate::client::Command;
use crate::dbgp::ContinuationStatus;
use crate::text::decimal_value;
use crate::text::is_decimal;
use crate::text::is_digit;

verus! {

/// Whether the listener accepts a debugger connection.
#[derive(PartialEq, Eq, Structural, Clone, Copy, Debug)]
pub enum ListenStatus {
    Connected,
    Listening,
    Refusing,
}

impl ListenStatus {
    pub fn is_connected(&self) -> (r: bool)
        ensures
            r == (*self == ListenStatus::Connected),
    {
        *self == ListenStatus::Connected
    }
}

/// What happens to the connection.
#[derive(PartialEq, Eq, Structural, Clone, Copy, Debug)]
pub enum ListenInput {
    /// A transport was accepted and its init packet read.
    Connected,
    /// The engine reported that it is stopping.
    Stopping,
    /// The user disconnected.
    Disconnect,
    /// The user asked to listen again.
    Listen,
}

impl ListenStatus {
    /// Whether an inbound connection is taken.
    pub fn accepts(&self) -> (r: bool)
        ensures
            r == (*self == ListenStatus::Listening),
    {
        *self == ListenStatus::Listening
    }

    /// The status after `input`; inputs that do not apply leave it as it is.
    pub fn next(&self, input: ListenInput) -> (r: ListenStatus)
        ensures
            r == match (*self, input) {
                (ListenStatus::Listening, ListenInput::Connected) => ListenStatus::Connected,
                (ListenStatus::Connected, ListenInput::Stopping) => ListenStatus::Refusing,
                (ListenStatus::Connected, ListenInput::Disconnect) => ListenStatus::Refusing,
                (ListenStatus::Refusing, ListenInput::Listen) => ListenStatus::Listening,
                (s, _) => s,
            },
    {
        match (*self, input) {
            (ListenStatus::Listening, ListenInput::Connected) => ListenStatus::Connected,
            (ListenStatus::Connected, ListenInput::Stopping) => ListenStatus::Refusing,
            (ListenStatus::Connected, ListenInput::Disconnect) => ListenStatus::Refusing,
            (ListenStatus::Refusing, ListenInput::Listen) => ListenStatus::Listening,
            (s, _) => s,
        }
    }
}

/// Whether the snapshot fetches the properties of the frame at `level` at once;
/// deeper frames are fetched when the user moves to them.
pub fn prefetches_context(level: usize, max_fetch: u16) -> (r: bool)
    ensures
        r == (level < max_fetch as usize),
{
    level < max_fetch as usize
}

/// The 0-based analysis row of a 1-based break line (row 0 for line 0).
pub fn break_row(line_no: u32) -> (r: usize)
    ensures
        r == if line_no == 0 { 0 } else { line_no - 1 },
{
    if line_no == 0 {
        0
    } else {
        (line_no - 1) as usize
    }
}

/// The view on screen.
#[derive(PartialEq, Eq, Structural, Clone, Copy, Debug)]
pub enum SelectedView {
    Listen,
    Session,
    Help,
}

/// The dialog shown above the view, if any.
#[derive(PartialEq, Eq, Structural, Clone, Copy, Debug)]
pub enum ActiveDialog {
    Eval,
}

/// Whether the session view follows the live break or browses the history.
#[derive(PartialEq, Eq, Structural, Clone, Copy, Debug)]
pub enum SessionViewMode {
    Current,
    History,
}

/// Whether the application waits for a connection or holds one.
#[derive(PartialEq, Eq, Structural, Clone, Copy, Debug)]
pub enum AppState {
    Listening,
    Connected,
}

/// Whether keys go to commands or to a text input.
#[derive(PartialEq, Eq, Structural, Clone, Copy, Debug)]
pub enum InputMode {
    Normal,
    Command,
}

/// A request to the process supervisor.
#[derive(Debug)]
pub enum ProcessEvent {
    /// Start the program and arguments, replacing the one running.
    Start(Vec<String>),
    /// Stop the running program.
    Stop,
}

/// The largest number of repetitions that a motion prefix asks for.
pub const MAX_MOTION: u16 = 255;

/// The repetitions that typed digits ask for: one when there are none (or they
/// are not all digits), else their value saturated at `MAX_MOTION`.
pub open spec fn motion_of(digits: Seq<char>) -> u16 {
    if digits.len() == 0 || !is_decimal(digits) {
        1
    } else if decimal_value(digits) > MAX_MOTION {
        MAX_MOTION
    } else {
        decimal_value(digits) as u16
    }
}

/// Takes the typed motion prefix, leaving it empty.
pub fn take_motion(digits: &mut Vec<char>) -> (r: u16)
    ensures
        r == motion_of(old(digits)@),
        final(digits)@.len() == 0,
{
    let ghost d = digits@;
    if digits.len() == 0 {
        return 1;
    }
    let cap: u32 = MAX_MOTION as u32 + 1;
    let mut value: u32 = 0;
    let mut i: usize = 0;
    while i < digits.len()
        invariant
            0 <= i <= digits@.len(),
            digits@ == d,
            d == old(digits)@,
            cap == MAX_MOTION as u32 + 1,
            forall|j: int| 0 <= j < i ==> is_digit(#[trigger] d[j]),
            value as nat == if decimal_value(d.subrange(0, i as int)) < cap as nat {
                decimal_value(d.subrange(0, i as int))
            } else {
                cap as nat
            },
        decreases digits@.len() - i,
    {
        let c = digits[i];
        assert(d.subrange(0, i + 1).drop_last() =~= d.subrange(0, i as int));
        if !('0' <= c && c <= '9') {
            assert(!is_digit(d[i as int]));
            assert(!is_decimal(d));
            *digits = Vec::new();
            return 1;
        }
        let next = value * 10 + (c as u32 - '0' as u32);
        value = if next < cap { next } else { cap };
        i = i + 1;
    }
    assert(d.subrange(0, d.len() as int) =~= d);
    *digits = Vec::new();
    if value > MAX_MOTION as u32 {
        MAX_MOTION
    } else {
        value as u16
    }
}

/// Moves a scroll position by `amount` times `motion`, within `0..=i16::MAX`.
pub fn apply_scroll(scroll: (u16, u16), amount: (i16, i16), motion: i16) -> (r: (u16, u16))
    ensures
        r.0 as int == clamp_scroll(scroll_base(scroll.0) + amount.0 as int * motion as int),
        r.1 as int == clamp_scroll(scroll_base(scroll.1) + amount.1 as int * motion as int),
{
    (scroll_axis(scroll.0, amount.0, motion), scroll_axis(scroll.1, amount.1, motion))
}

/// A scroll position as a signed 16-bit value, saturating.
pub open spec fn scroll_base(pos: u16) -> int {
    if pos > i16::MAX as u16 {
        i16::MAX as int
    } else {
        pos as int
    }
}

/// A scroll position kept within `0..=i16::MAX`.
pub open spec fn clamp_scroll(v: int) -> int {
    if v < 0 {
        0
    } else if v > i16::MAX {
        i16::MAX as int
    } else {
        v
    }
}

fn scroll_axis(pos: u16, amount: i16, motion: i16) -> (r: u16)
    ensures
        r as int == clamp_scroll(scroll_base(pos) + amount as int * motion as int),
{
    let p: i64 = if pos > i16::MAX as u16 { i16::MAX as i64 } else { pos as i64 };
    assert(-32768 * 32767 <= amount as int * motion as int <= 32768 * 32768) by (nonlinear_arith)
        requires
            -32768 <= amount <= 32767,
            -32768 <= motion <= 32767,
    ;
    let delta: i64 = amount as i64 * motion as i64;
    let v: i64 = p + delta;
    if v < 0 {
        0
    } else if v > i16::MAX as i64 {
        i16::MAX as u16
    } else {
        v as u16
    }
}

// ---- continuation scheduler ----------------------------------------------------

/// The continuation commands.
#[derive(PartialEq, Eq, Structural, Clone, Copy, Debug)]
pub enum ContinuationKind {
    Run,
    StepInto,
    StepOver,
    StepOut,
}

impl ContinuationKind {
    /// The protocol command for this continuation.
    pub fn command(&self) -> (r: Command)
        ensures
            r == match self {
                ContinuationKind::Run => Command::Run,
                ContinuationKind::StepInto => Command::StepInto,
                ContinuationKind::StepOver => Command::StepOver,
                ContinuationKind::StepOut => Command::StepOut,
            },
    {
        match self {
            ContinuationKind::Run => Command::Run,
            ContinuationKind::StepInto => Command::StepInto,
            ContinuationKind::StepOver => Command::StepOver,
            ContinuationKind::StepOut => Command::StepOut,
        }
    }
}

/// What the scheduler waits for.
#[derive(PartialEq, Eq, Structural, Clone, Copy, Debug)]
pub enum Phase {
    /// The reply to the continuation command just issued.
    Reply,
    /// The snapshot of the break just reported.
    Snapshot,
    /// Nothing: the scheduler has finished.
    Done,
}

/// What happened since the scheduler last acted.
#[derive(Debug)]
pub enum SchedulerEvent {
    /// The engine replied to the continuation command.
    Reply(ContinuationStatus),
    /// The transport failed while the command was in flight.
    TransportFailed,
    /// The snapshot of the last break is in the history.
    SnapshotDone,
}

/// What the orchestrator is to do next.
#[derive(Debug)]
pub enum SchedulerAction {
    /// Issue the continuation command.
    Issue(ContinuationKind),
    /// Build a snapshot of the break and report `SnapshotDone`.
    Snapshot,
    /// Disconnect, then report the last status if there is one.
    Disconnect(Option<ContinuationStatus>),
    /// Report the last status, if there is one: the scheduler is done.
    Finish(Option<ContinuationStatus>),
    /// Nothing to do for this event.
    Wait,
}

/// An N-step continuation: the command is repeated `total` times, and a snapshot
/// completes after each break before the next command goes out.
#[derive(Debug)]
pub struct Scheduler {
    pub kind: ContinuationKind,
    pub total: u16,
    pub issued: u16,
    pub breaks: u16,
    pub snapshots: u16,
    pub phase: Phase,
    pub last: Option<ContinuationStatus>,
}

impl Scheduler {
    /// Counters stay consistent: every break but the one being snapshotted has
    /// its snapshot, and no more commands went out than asked for.
    pub open spec fn wf(&self) -> bool {
        &&& self.issued <= self.total
        &&& self.breaks <= self.issued
        &&& match self.phase {
            Phase::Reply => self.snapshots == self.breaks && self.issued >= 1 && self.breaks
                < self.issued,
            Phase::Snapshot => self.snapshots + 1 == self.breaks,
            Phase::Done => self.snapshots == self.breaks,
        }
    }

    /// The scheduler after `event`, and what it asks for.
    pub open spec fn next(self, event: SchedulerEvent) -> (Scheduler, SchedulerAction) {
        match (self.phase, event) {
            (Phase::Reply, SchedulerEvent::Reply(status)) => {
                let s = Scheduler { last: Some(status), ..self };
                match status {
                    ContinuationStatus::Break => (
                        Scheduler { phase: Phase::Snapshot, breaks: (s.breaks + 1) as u16, ..s },
                        SchedulerAction::Snapshot,
                    ),
                    ContinuationStatus::Stopping => (
                        Scheduler { phase: Phase::Done, ..s },
                        SchedulerAction::Finish(Some(status)),
                    ),
                    ContinuationStatus::Unknown(_) => if s.issued < s.total {
                        (
                            Scheduler { issued: (s.issued + 1) as u16, ..s },
                            SchedulerAction::Issue(s.kind),
                        )
                    } else {
                        (Scheduler { phase: Phase::Done, ..s }, SchedulerAction::Finish(Some(status)))
                    },
                }
            },
            (Phase::Reply, SchedulerEvent::TransportFailed) => (
                Scheduler { phase: Phase::Done, ..self },
                SchedulerAction::Disconnect(self.last),
            ),
            (Phase::Snapshot, SchedulerEvent::SnapshotDone) => {
                let s = Scheduler { snapshots: (self.snapshots + 1) as u16, ..self };
                if s.issued < s.total {
                    (
                        Scheduler { issued: (s.issued + 1) as u16, phase: Phase::Reply, ..s },
                        SchedulerAction::Issue(s.kind),
                    )
                } else {
                    (Scheduler { phase: Phase::Done, ..s }, SchedulerAction::Finish(s.last))
                }
            },
            (_, _) => (self, SchedulerAction::Wait),
        }
    }

    /// Starts a continuation repeated `count` times; with a count of 0 it is done
    /// at once.
    pub fn start(kind: ContinuationKind, count: u16) -> (r: (Scheduler, SchedulerAction))
        ensures
            r.0.wf(),
            r.0.kind == kind,
            r.0.total == count,
            r.0.breaks == 0 && r.0.snapshots == 0 && r.0.last.is_none(),
            count == 0 ==> r.0.phase == Phase::Done && r.0.issued == 0 && r.1 == SchedulerAction::Finish(None),
            count > 0 ==> r.0.phase == Phase::Reply && r.0.issued == 1 && r.1 == SchedulerAction::Issue(kind),
    {
        if count == 0 {
            (
                Scheduler { kind, total: 0, issued: 0, breaks: 0, snapshots: 0, phase: Phase::Done, last: None },
                SchedulerAction::Finish(None),
            )
        } else {
            (
                Scheduler { kind, total: count, issued: 1, breaks: 0, snapshots: 0, phase: Phase::Reply, last: None },
                SchedulerAction::Issue(kind),
            )
        }
    }

    /// Takes in one event and says what to do next.
    pub fn on_event(&mut self, event: SchedulerEvent) -> (r: SchedulerAction)
        requires
            old(self).wf(),
        ensures
            (*final(self), r) == old(self).next(event),
            final(self).wf(),
    {
        match (self.phase, event) {
            (Phase::Reply, SchedulerEvent::Reply(status)) => {
                match status {
                    ContinuationStatus::Break => {
                        self.last = Some(ContinuationStatus::Break);
                        self.breaks = self.breaks + 1;
                        self.phase = Phase::Snapshot;
                        SchedulerAction::Snapshot
                    },
                    ContinuationStatus::Stopping => {
                        self.last = Some(ContinuationStatus::Stopping);
                        self.phase = Phase::Done;
                        SchedulerAction::Finish(Some(ContinuationStatus::Stopping))
                    },
                    ContinuationStatus::Unknown(reason) => {
                        if self.issued < self.total {
                            self.last = Some(ContinuationStatus::Unknown(reason));
                            self.issued = self.issued + 1;
                            SchedulerAction::Issue(self.kind)
                        } else {
                            self.last = Some(ContinuationStatus::Unknown(reason.clone()));
                            self.phase = Phase::Done;
                            SchedulerAction::Finish(Some(ContinuationStatus::Unknown(reason)))
                        }
                    },
                }
            },
            (Phase::Reply, SchedulerEvent::TransportFailed) => {
                self.phase = Phase::Done;
                let last = match &self.last {
                    Some(ContinuationStatus::Break) => Some(ContinuationStatus::Break),
                    Some(ContinuationStatus::Stopping) => Some(ContinuationStatus::Stopping),
                    Some(ContinuationStatus::Unknown(s)) => Some(ContinuationStatus::Unknown(s.clone())),
                    None => None,
                };
                SchedulerAction::Disconnect(last)
            },
            (Phase::Snapshot, SchedulerEvent::SnapshotDone) => {
                self.snapshots = self.snapshots + 1;
                if self.issued < self.total {
                    self.issued = self.issued + 1;
                    self.phase = Phase::Reply;
                    SchedulerAction::Issue(self.kind)
                } else {
                    self.phase = Phase::Done;
                    let last = match &self.last {
                        Some(ContinuationStatus::Break) => Some(ContinuationStatus::Break),
                        Some(ContinuationStatus::Stopping) => Some(ContinuationStatus::Stopping),
                        Some(ContinuationStatus::Unknown(s)) => Some(ContinuationStatus::Unknown(s.clone())),
                        None => None,
                    };
                    SchedulerAction::Finish(last)
                }
            },
            (_, _) => SchedulerAction::Wait,
        }
    }
}

/// A continuation command goes out only once every break before it has its
/// snapshot, and a scheduler whose replies were all breaks finishes only after
/// exactly as many snapshots as it was asked for repetitions.
pub proof fn lemma_snapshot_between_continuations(s: Scheduler, event: SchedulerEvent)
    requires
        s.wf(),
    ensures
        s.next(event).0.wf(),
        s.next(event).1 is Issue ==> s.next(event).0.snapshots == s.next(event).0.breaks,
        s.next(event).1 is Issue ==> s.next(event).0.issued == s.issued + 1,
        (s.next(event).1 is Finish && s.next(event).0.breaks == s.next(event).0.issued)
            ==> s.next(event).0.snapshots == s.next(event).0.total,
{
}

/// The scheduler after `i` rounds in which the engine reports a break and the
/// snapshot of it completes.
pub open spec fn after_break_rounds(s: Scheduler, i: nat) -> Scheduler
    decreases i,
{
    if i == 0 {
        s
    } else {
        let prev = after_break_rounds(s, (i - 1) as nat);
        prev.next(SchedulerEvent::Reply(ContinuationStatus::Break)).0.next(
            SchedulerEvent::SnapshotDone,
        ).0
    }
}

/// In an N-step continuation where every reply is a break, each of the first
/// N - 1 rounds ends by issuing the next command after its snapshot completed, and
/// the N-th round finishes with exactly N commands issued and N snapshots taken.
pub proof fn lemma_n_step_run(kind: ContinuationKind, n: u16, i: nat)
    requires
        n > 0,
        0 < i <= n,
    ensures
        ({
            let s0 = Scheduler {
                kind,
                total: n,
                issued: 1,
                breaks: 0,
                snapshots: 0,
                phase: Phase::Reply,
                last: None,
            };
            let before = after_break_rounds(s0, (i - 1) as nat);
            let (mid, a1) = before.next(SchedulerEvent::Reply(ContinuationStatus::Break));
            let (after, a2) = mid.next(SchedulerEvent::SnapshotDone);
            &&& before.phase == Phase::Reply && before.issued == i && before.snapshots == i - 1
            &&& before.breaks == i - 1 && before.kind == kind && before.total == n
            &&& a1 is Snapshot
            &&& after.snapshots == i
            &&& (i < n ==> a2 == SchedulerAction::Issue(kind) && after.issued == i + 1)
            &&& (i == n ==> after.phase == Phase::Done && after.issued == n && a2 is Finish)
        }),
    decreases i,
{
    if i > 1 {
        lemma_n_step_run(kind, n, (i - 1) as nat);
    }
}

} // verus!

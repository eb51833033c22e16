//! The beacon's decisions: from its state and whether a stop was requested to
//! the next thing the transmitter loop must do.

use vstd::prelude::*;
use crate::timing::Step;

verus! {

/// Pause between carrier-only polls of the stop request, in milliseconds.
pub const TICK_MS: u64 = 20;

/// Silence after each full pass over the message, in milliseconds.
pub const REPEAT_SILENCE_MS: u64 = 900;

/// Exit code of a graceful stop.
pub const EXIT_OK: i32 = 0;

/// Exit code after a failed transmitter write.
pub const EXIT_FAILURE: i32 = 1;

/// How the carrier is used; chosen once per run.
#[derive(Clone, Copy, Debug, PartialEq, Eq, Structural)]
pub enum Mode {
    /// Unmodulated carrier until stopped.
    CarrierOnly,
    /// The message keyed in Morse, repeated until stopped.
    Modulated,
}

/// Where a run stands: not started, keying or carrying, powering down, done.
#[derive(Clone, Copy, Debug, PartialEq, Eq, Structural)]
pub enum Phase {
    Idle,
    Transmitting,
    Draining,
    Stopped,
}

/// What the transmitter loop does next.
#[derive(Clone, Copy, Debug, PartialEq, Eq, Structural)]
pub enum Action {
    /// Set the gain, then sleep for the step's duration.
    Key(Step),
    /// Sleep this many milliseconds, touching nothing.
    Wait(u64),
    /// Write the transmitter's power-down attribute.
    PowerDown,
    /// End the process with this code.
    Exit(i32),
}

/// The abstract state of a scheduler.
pub struct SchedulerView {
    pub mode: Mode,
    pub plan: Seq<Step>,
    pub phase: Phase,
    pub cursor: int,
    pub failed: bool,
}

/// One decision: the next state and the action, given whether a stop request
/// was seen. Carrier-only mode polls every tick; modulated mode looks at the
/// request only at the start of each pass over the plan.
pub open spec fn step(s: SchedulerView, cancelled: bool) -> (SchedulerView, Action) {
    match s.phase {
        Phase::Idle | Phase::Transmitting => {
            let t = SchedulerView { phase: Phase::Transmitting, ..s };
            if s.mode == Mode::CarrierOnly {
                if cancelled {
                    (SchedulerView { phase: Phase::Draining, ..t }, Action::PowerDown)
                } else {
                    (t, Action::Wait(TICK_MS))
                }
            } else if s.cursor == 0 && cancelled {
                (SchedulerView { phase: Phase::Draining, ..t }, Action::PowerDown)
            } else if s.cursor < s.plan.len() {
                (SchedulerView { cursor: s.cursor + 1, ..t }, Action::Key(s.plan[s.cursor]))
            } else {
                (SchedulerView { cursor: 0, ..t }, Action::Wait(REPEAT_SILENCE_MS))
            }
        },
        Phase::Draining => (SchedulerView { phase: Phase::Stopped, ..s }, Action::Exit(EXIT_OK)),
        Phase::Stopped => (s, Action::Exit(exit_code_of(s))),
    }
}

/// The exit code of a stopped run: failure after a failed write, else success.
pub open spec fn exit_code_of(s: SchedulerView) -> i32 {
    if s.failed {
        EXIT_FAILURE
    } else {
        EXIT_OK
    }
}

/// The actions of successive decisions, one per observation in `events`.
pub open spec fn run(s: SchedulerView, events: Seq<bool>) -> Seq<Action>
    decreases events.len(),
{
    if events.len() == 0 {
        seq![]
    } else {
        seq![step(s, events[0]).1] + run(step(s, events[0]).0, events.drop_first())
    }
}

/// The state after the decisions of `events`.
pub open spec fn state_after(s: SchedulerView, events: Seq<bool>) -> SchedulerView
    decreases events.len(),
{
    if events.len() == 0 {
        s
    } else {
        state_after(step(s, events[0]).0, events.drop_first())
    }
}

/// The actions of one full pass over `plan`: every step keyed in order, then
/// the silence before the next pass.
pub open spec fn pass_actions(plan: Seq<Step>) -> Seq<Action> {
    plan.map_values(|x: Step| Action::Key(x)).push(Action::Wait(REPEAT_SILENCE_MS))
}

/// How many decisions a modulated scheduler makes, while stop stays
/// requested, before it powers down: none at the start of a pass, else the
/// rest of the pass and its silence.
pub open spec fn decisions_before_power_down(s: SchedulerView) -> int {
    if s.cursor == 0 {
        0
    } else {
        s.plan.len() - s.cursor + 1
    }
}

/// One action per observation.
pub proof fn lemma_run_len(s: SchedulerView, events: Seq<bool>)
    ensures
        run(s, events).len() == events.len(),
    decreases events.len(),
{
    if events.len() > 0 {
        lemma_run_len(step(s, events[0]).0, events.drop_first());
    }
}

/// Running two stretches of observations one after the other is running
/// their concatenation.
pub proof fn lemma_run_append(s: SchedulerView, a: Seq<bool>, b: Seq<bool>)
    ensures
        run(s, a + b) == run(s, a) + run(state_after(s, a), b),
        state_after(s, a + b) == state_after(state_after(s, a), b),
    decreases a.len(),
{
    if a.len() == 0 {
        assert(a + b =~= b);
    } else {
        let t = step(s, a[0]).0;
        lemma_run_append(t, a.drop_first(), b);
        assert((a + b).drop_first() =~= a.drop_first() + b);
        assert((a + b)[0] == a[0]);
        assert(run(s, a + b) =~= run(s, a) + run(state_after(s, a), b));
    }
}

/// Once draining or stopped, the scheduler only asks to exit.
pub proof fn lemma_drained_only_exits(s: SchedulerView, events: Seq<bool>)
    requires
        s.phase == Phase::Draining || s.phase == Phase::Stopped,
    ensures
        forall|i: int| 0 <= i < events.len() ==> run(s, events)[i] is Exit,
    decreases events.len(),
{
    lemma_run_len(s, events);
    if events.len() > 0 {
        let t = step(s, events[0]).0;
        lemma_drained_only_exits(t, events.drop_first());
        lemma_run_len(t, events.drop_first());
        assert forall|i: int| 0 <= i < events.len() implies run(s, events)[i] is Exit by {
            if i > 0 {
                assert(run(s, events)[i] == run(t, events.drop_first())[i - 1]);
            }
        }
    }
}

/// In carrier-only mode the scheduler never sets the gain: it waits one tick
/// per observation until the first stop request, then powers down once, and
/// afterwards only asks to exit.
pub proof fn lemma_carrier_only_polls(s: SchedulerView, events: Seq<bool>, k: int)
    requires
        s.mode == Mode::CarrierOnly,
        s.phase == Phase::Idle || s.phase == Phase::Transmitting,
        0 <= k < events.len(),
        events[k],
        forall|i: int| 0 <= i < k ==> !events[i],
    ensures
        run(s, events).len() == events.len(),
        forall|i: int| 0 <= i < k ==> run(s, events)[i] == Action::Wait(TICK_MS),
        run(s, events)[k] == Action::PowerDown,
        forall|i: int| k < i < events.len() ==> run(s, events)[i] is Exit,
        forall|i: int| 0 <= i < events.len() ==> !(run(s, events)[i] is Key),
    decreases k,
{
    lemma_run_len(s, events);
    let t = step(s, events[0]).0;
    let rest = events.drop_first();
    lemma_run_len(t, rest);
    assert forall|i: int| 1 <= i < events.len() implies run(s, events)[i] == run(t, rest)[i - 1] by {}
    if k == 0 {
        lemma_drained_only_exits(t, rest);
    } else {
        lemma_carrier_only_polls(t, rest, k - 1);
    }
}

/// From any point of a pass with no stop requested, the modulated scheduler
/// keys the rest of the plan, waits the silence and is back at the pass's
/// start.
pub proof fn lemma_rest_of_pass(s: SchedulerView, events: Seq<bool>)
    requires
        s.mode == Mode::Modulated,
        s.phase == Phase::Transmitting,
        0 <= s.cursor <= s.plan.len(),
        events.len() == s.plan.len() - s.cursor + 1,
        forall|i: int| 0 <= i < events.len() ==> !events[i],
    ensures
        run(s, events) == s.plan.subrange(s.cursor, s.plan.len() as int).map_values(
            |x: Step| Action::Key(x),
        ).push(Action::Wait(REPEAT_SILENCE_MS)),
        state_after(s, events) == (SchedulerView { cursor: 0, ..s }),
    decreases s.plan.len() - s.cursor,
{
    let t = step(s, events[0]).0;
    let rest = events.drop_first();
    if s.cursor < s.plan.len() {
        lemma_rest_of_pass(t, rest);
        assert(state_after(s, events) == state_after(t, rest));
        assert((SchedulerView { cursor: 0, ..t }) == (SchedulerView { cursor: 0, ..s }));
        assert(run(s, events) =~= s.plan.subrange(s.cursor, s.plan.len() as int).map_values(
            |x: Step| Action::Key(x),
        ).push(Action::Wait(REPEAT_SILENCE_MS)));
    } else {
        assert(rest.len() == 0);
        assert(run(t, rest) == Seq::<Action>::empty());
        assert(state_after(t, rest) == t);
        assert(run(s, events) =~= s.plan.subrange(s.cursor, s.plan.len() as int).map_values(
            |x: Step| Action::Key(x),
        ).push(Action::Wait(REPEAT_SILENCE_MS)));
    }
}

/// With no stop requested, a modulated pass starting at the head of the plan
/// issues exactly `pass_actions(plan)` and ends in the state it began in, so
/// every pass repeats the same gains and durations.
pub proof fn lemma_pass_repeats(s: SchedulerView, events: Seq<bool>)
    requires
        s.mode == Mode::Modulated,
        s.phase == Phase::Transmitting,
        s.cursor == 0,
        events.len() == s.plan.len() + 1,
        forall|i: int| 0 <= i < events.len() ==> !events[i],
    ensures
        run(s, events) == pass_actions(s.plan),
        state_after(s, events) == s,
        run(s, events + events) == pass_actions(s.plan) + pass_actions(s.plan),
{
    lemma_rest_of_pass(s, events);
    assert(s.plan.subrange(0, s.plan.len() as int) =~= s.plan);
    assert(state_after(s, events) =~= s);
    lemma_run_append(s, events, events);
}

/// Once a stop is requested and stays requested, a modulated scheduler
/// powers down within one pass and its silence, exactly once, and afterwards
/// only asks to exit.
pub proof fn lemma_stop_within_one_pass(s: SchedulerView, events: Seq<bool>)
    requires
        s.mode == Mode::Modulated,
        s.phase == Phase::Transmitting,
        0 <= s.cursor <= s.plan.len(),
        decisions_before_power_down(s) < events.len(),
        forall|i: int| 0 <= i < events.len() ==> events[i],
    ensures
        decisions_before_power_down(s) <= s.plan.len() + 1,
        run(s, events).len() == events.len(),
        forall|i: int|
            0 <= i < decisions_before_power_down(s) ==> run(s, events)[i] != Action::PowerDown,
        run(s, events)[decisions_before_power_down(s)] == Action::PowerDown,
        forall|i: int|
            decisions_before_power_down(s) < i < events.len() ==> run(s, events)[i] is Exit,
    decreases decisions_before_power_down(s),
{
    lemma_run_len(s, events);
    let t = step(s, events[0]).0;
    let rest = events.drop_first();
    lemma_run_len(t, rest);
    assert forall|i: int| 1 <= i < events.len() implies run(s, events)[i] == run(t, rest)[i - 1] by {}
    assert forall|i: int| 0 <= i < rest.len() implies rest[i] by {
        assert(rest[i] == events[i + 1]);
    }
    if s.cursor == 0 {
        lemma_drained_only_exits(t, rest);
    } else {
        lemma_stop_within_one_pass(t, rest);
    }
}

/// After a failed transmitter write the scheduler never powers down: it only
/// asks to exit with the failure code.
pub proof fn lemma_failure_is_final(s: SchedulerView, events: Seq<bool>)
    requires
        s.phase == Phase::Stopped,
        s.failed,
    ensures
        run(s, events).len() == events.len(),
        forall|i: int| 0 <= i < events.len() ==> run(s, events)[i] == Action::Exit(EXIT_FAILURE),
    decreases events.len(),
{
    lemma_run_len(s, events);
    if events.len() > 0 {
        let rest = events.drop_first();
        lemma_failure_is_final(s, rest);
        assert forall|i: int| 1 <= i < events.len() implies run(s, events)[i] == run(s, rest)[i - 1] by {}
    }
}

/// Drives the transmitter through a plan of steps until a stop is requested.
pub struct Scheduler {
    mode: Mode,
    plan: Vec<Step>,
    phase: Phase,
    cursor: usize,
    failed: bool,
}

impl View for Scheduler {
    type V = SchedulerView;

    closed spec fn view(&self) -> SchedulerView {
        SchedulerView {
            mode: self.mode,
            plan: self.plan@,
            phase: self.phase,
            cursor: self.cursor as int,
            failed: self.failed,
        }
    }
}

impl Scheduler {
    /// The cursor stays within the plan.
    pub closed spec fn wf(&self) -> bool {
        self.cursor <= self.plan@.len()
    }

    /// A scheduler that has not started, for `plan` in `mode`.
    pub fn new(mode: Mode, plan: Vec<Step>) -> (r: Scheduler)
        ensures
            r.wf(),
            r@ == (SchedulerView { mode, plan: plan@, phase: Phase::Idle, cursor: 0, failed: false }),
    {
        Scheduler { mode, plan, phase: Phase::Idle, cursor: 0, failed: false }
    }

    /// The current phase.
    pub fn phase(&self) -> (r: Phase)
        ensures
            r == self@.phase,
    {
        self.phase
    }

    /// The mode chosen at construction.
    pub fn mode(&self) -> (r: Mode)
        ensures
            r == self@.mode,
    {
        self.mode
    }

    /// Decides the next action from whether a stop request was seen.
    pub fn next_action(&mut self, cancelled: bool) -> (a: Action)
        requires
            old(self).wf(),
        ensures
            final(self).wf(),
            (final(self)@, a) == step(old(self)@, cancelled),
    {
        match self.phase {
            Phase::Idle | Phase::Transmitting => {
                self.phase = Phase::Transmitting;
                match self.mode {
                    Mode::CarrierOnly => {
                        if cancelled {
                            self.phase = Phase::Draining;
                            Action::PowerDown
                        } else {
                            Action::Wait(TICK_MS)
                        }
                    },
                    Mode::Modulated => {
                        if self.cursor == 0 && cancelled {
                            self.phase = Phase::Draining;
                            Action::PowerDown
                        } else if self.cursor < self.plan.len() {
                            let s = self.plan[self.cursor];
                            self.cursor = self.cursor + 1;
                            Action::Key(s)
                        } else {
                            self.cursor = 0;
                            Action::Wait(REPEAT_SILENCE_MS)
                        }
                    },
                }
            },
            Phase::Draining => {
                self.phase = Phase::Stopped;
                Action::Exit(EXIT_OK)
            },
            Phase::Stopped => Action::Exit(self.exit_code()),
        }
    }

    /// Records that a transmitter write failed: the run ends at once, with no
    /// power-down, and the returned exit code reports the failure.
    pub fn write_failed(&mut self) -> (code: i32)
        requires
            old(self).wf(),
        ensures
            final(self).wf(),
            final(self)@ == (SchedulerView { phase: Phase::Stopped, failed: true, ..old(self)@ }),
            code == EXIT_FAILURE,
    {
        self.phase = Phase::Stopped;
        self.failed = true;
        EXIT_FAILURE
    }

    /// The code the process ends with once stopped.
    pub fn exit_code(&self) -> (r: i32)
        ensures
            r == exit_code_of(self@),
    {
        if self.failed {
            EXIT_FAILURE
        } else {
            EXIT_OK
        }
    }
}

} // verus!

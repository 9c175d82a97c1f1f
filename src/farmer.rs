//! The executor: owns the work and decides, poll by poll, which actions to
//! issue and what to do with the step's stopwatch.
use vstd::prelude::*;
use stopwatch::Stopwatch;
use crate::work::{Action, Work, WorkStep};

verus! {

#[verifier::external_type_specification]
#[verifier::external_body]
pub struct ExStopwatch(stopwatch::Stopwatch);

/// How long the driver of the executor waits between two polls.
pub const POLL_INTERVAL_MS: u64 = 100;

/// Where the executor stands in the work.
#[derive(Clone, Copy, Debug, PartialEq, Eq, Structural)]
pub enum Phase {
    /// Nothing started yet; waits for the signal to read "not paused".
    AwaitingStart,
    /// Permanent work is active, and so is the cyclic step at the index.
    Running(usize),
    /// Everything is released: the signal last read "paused". The cyclic
    /// step at the index resumes later, its stopwatch halted meanwhile.
    Paused(usize),
}

/// The executor and the work it replays. Durations are in milliseconds.
pub struct Farmer {
    pub permanent_work: Vec<WorkStep>,
    pub cyclic_work: Vec<(WorkStep, u128)>,
    pub phase: Phase,
    /// Counts the active time of the running cyclic step.
    pub stopwatch: Stopwatch,
}

/// The largest duration a cyclic step may have: whole seconds of a `u64`.
pub open spec fn max_duration_ms() -> int {
    u64::MAX as int * 1000
}

/// A press of each step, in the steps' order.
pub open spec fn begin_all(s: Seq<WorkStep>) -> Seq<Action> {
    s.map_values(|w: WorkStep| Action::Begin(w))
}

/// A release of each step, in the steps' order.
pub open spec fn end_all(s: Seq<WorkStep>) -> Seq<Action> {
    s.map_values(|w: WorkStep| Action::End(w))
}

/// The work step of the cyclic entry at `i`, as a sequence of one, or empty
/// where the cyclic list has no such entry.
pub open spec fn current_step(cyc: Seq<(WorkStep, u128)>, i: int) -> Seq<WorkStep> {
    if 0 <= i < cyc.len() {
        seq![cyc[i].0]
    } else {
        Seq::empty()
    }
}

/// Every cyclic duration came from whole seconds of a `u64` or from
/// milliseconds of a `u64`.
pub open spec fn durations_fit(cyc: Seq<(WorkStep, u128)>) -> bool {
    forall|k: int| 0 <= k < cyc.len() ==> cyc[k].1 <= max_duration_ms()
}

/// `i` names a cyclic entry, or is 0 where there is none.
pub open spec fn index_fits(cyc: Seq<(WorkStep, u128)>, i: usize) -> bool {
    i < cyc.len() || (cyc.len() == 0 && i == 0)
}

/// The phase's step index fits the cyclic list.
pub open spec fn phase_fits(cyc: Seq<(WorkStep, u128)>, p: Phase) -> bool {
    match p {
        Phase::AwaitingStart => true,
        Phase::Running(i) => index_fits(cyc, i),
        Phase::Paused(i) => index_fits(cyc, i),
    }
}

/// What the executor does with the running step's stopwatch after a poll.
#[derive(Clone, Copy, Debug, PartialEq, Eq, Structural)]
pub enum TimerOp {
    /// Leave it as it is.
    Keep,
    /// Zero it and start counting: a new step has begun.
    Restart,
    /// Stop counting and keep what was counted: a pause has begun.
    Halt,
    /// Go on counting from what was kept: the pause is over.
    Resume,
}

/// The outcome of one poll: the actions to issue, in order, and the
/// stopwatch operation that follows them.
#[derive(Debug)]
pub struct Reaction {
    pub actions: Vec<Action>,
    pub timer: TimerOp,
}

/// The cyclic step at `i` has had its full duration of active time.
pub open spec fn step_done(cyc: Seq<(WorkStep, u128)>, i: usize, elapsed: u128) -> bool {
    i < cyc.len() && elapsed >= cyc[i as int].1
}

/// The index that follows `i` in the cyclic list, wrapping to the start.
pub open spec fn next_index(cyc: Seq<(WorkStep, u128)>, i: usize) -> usize {
    if i + 1 < cyc.len() {
        (i + 1) as usize
    } else {
        0
    }
}

/// The phase after a poll that reads the signal `paused` and the running
/// step's active time `elapsed`.
pub open spec fn next_phase(cyc: Seq<(WorkStep, u128)>, p: Phase, paused: bool, elapsed: u128) -> Phase {
    match p {
        Phase::AwaitingStart => if paused {
            Phase::AwaitingStart
        } else {
            Phase::Running(0)
        },
        Phase::Running(i) => if paused {
            Phase::Paused(i)
        } else if step_done(cyc, i, elapsed) {
            Phase::Running(next_index(cyc, i))
        } else {
            Phase::Running(i)
        },
        Phase::Paused(i) => if paused {
            Phase::Paused(i)
        } else {
            Phase::Running(i)
        },
    }
}

/// The actions of that poll: the whole start sequence on leaving
/// `AwaitingStart` or `Paused`, the whole stop sequence on a pause edge,
/// and the release of the finished step and the press of the next one.
pub open spec fn reaction_actions(
    perm: Seq<WorkStep>,
    cyc: Seq<(WorkStep, u128)>,
    p: Phase,
    paused: bool,
    elapsed: u128,
) -> Seq<Action> {
    match p {
        Phase::AwaitingStart => if paused {
            Seq::empty()
        } else {
            begin_all(perm) + begin_all(current_step(cyc, 0))
        },
        Phase::Running(i) => if paused {
            end_all(perm) + end_all(current_step(cyc, i as int))
        } else if step_done(cyc, i, elapsed) {
            seq![Action::End(cyc[i as int].0), Action::Begin(cyc[next_index(cyc, i) as int].0)]
        } else {
            Seq::empty()
        },
        Phase::Paused(i) => if paused {
            Seq::empty()
        } else {
            begin_all(perm) + begin_all(current_step(cyc, i as int))
        },
    }
}

/// The stopwatch operation of that poll.
pub open spec fn timer_op(cyc: Seq<(WorkStep, u128)>, p: Phase, paused: bool, elapsed: u128) -> TimerOp {
    match p {
        Phase::AwaitingStart => if paused {
            TimerOp::Keep
        } else {
            TimerOp::Restart
        },
        Phase::Running(i) => if paused {
            TimerOp::Halt
        } else if step_done(cyc, i, elapsed) {
            TimerOp::Restart
        } else {
            TimerOp::Keep
        },
        Phase::Paused(i) => if paused {
            TimerOp::Keep
        } else {
            TimerOp::Resume
        },
    }
}

/// The cyclic list of a `Work` in milliseconds.
pub open spec fn loaded_cyclic(c: Seq<(WorkStep, u64)>) -> Seq<(WorkStep, u128)> {
    c.map_values(|e: (WorkStep, u64)| (e.0, (e.1 * 1000) as u128))
}

/// A cyclic list in whole seconds, each duration rounded down.
pub open spec fn snapshot_cyclic(c: Seq<(WorkStep, u128)>) -> Seq<(WorkStep, u64)> {
    c.map_values(|e: (WorkStep, u128)| (e.0, (e.1 / 1000) as u64))
}

impl Farmer {
    /// The executor's invariant.
    pub open spec fn wf(&self) -> bool {
        &&& durations_fit(self.cyclic_work@)
        &&& phase_fits(self.cyclic_work@, self.phase)
    }

    /// An idle executor with no work.
    pub fn new() -> (r: Farmer)
        ensures
            r.wf(),
            r.permanent_work@ == Seq::<WorkStep>::empty(),
            r.cyclic_work@ == Seq::<(WorkStep, u128)>::empty(),
            r.phase == Phase::AwaitingStart,
    {
        Farmer {
            permanent_work: Vec::new(),
            cyclic_work: Vec::new(),
            phase: Phase::AwaitingStart,
            stopwatch: new_stopwatch(),
        }
    }

    fn start_work_step(&self, step: &WorkStep, out: &mut Vec<Action>)
        ensures
            final(out)@ == old(out)@.push(Action::Begin(*step)),
    {
        out.push(Action::Begin(*step));
    }

    fn stop_work_step(&self, step: &WorkStep, out: &mut Vec<Action>)
        ensures
            final(out)@ == old(out)@.push(Action::End(*step)),
    {
        out.push(Action::End(*step));
    }

    /// Appends a press of every permanent step, in list order.
    pub fn start_permanent_work(&self, out: &mut Vec<Action>)
        ensures
            final(out)@ == old(out)@ + begin_all(self.permanent_work@),
    {
        let n = self.permanent_work.len();
        let mut i: usize = 0;
        while i < n
            invariant
                n == self.permanent_work@.len(),
                i <= n,
                out@ == old(out)@ + begin_all(self.permanent_work@.subrange(0, i as int)),
            decreases n - i,
        {
            let step = self.permanent_work[i];
            self.start_work_step(&step, out);
            assert(self.permanent_work@.subrange(0, i + 1) == self.permanent_work@.subrange(
                0,
                i as int,
            ).push(step));
            assert(begin_all(self.permanent_work@.subrange(0, i + 1)) =~= begin_all(
                self.permanent_work@.subrange(0, i as int),
            ).push(Action::Begin(step)));
            i += 1;
        }
        assert(self.permanent_work@.subrange(0, n as int) == self.permanent_work@);
    }

    /// Appends a release of every permanent step, in list order.
    pub fn stop_permanent_work(&self, out: &mut Vec<Action>)
        ensures
            final(out)@ == old(out)@ + end_all(self.permanent_work@),
    {
        let n = self.permanent_work.len();
        let mut i: usize = 0;
        while i < n
            invariant
                n == self.permanent_work@.len(),
                i <= n,
                out@ == old(out)@ + end_all(self.permanent_work@.subrange(0, i as int)),
            decreases n - i,
        {
            let step = self.permanent_work[i];
            self.stop_work_step(&step, out);
            assert(self.permanent_work@.subrange(0, i + 1) == self.permanent_work@.subrange(
                0,
                i as int,
            ).push(step));
            assert(end_all(self.permanent_work@.subrange(0, i + 1)) =~= end_all(
                self.permanent_work@.subrange(0, i as int),
            ).push(Action::End(step)));
            i += 1;
        }
        assert(self.permanent_work@.subrange(0, n as int) == self.permanent_work@);
    }

    /// Appends a press of the cyclic step at `i`, if there is one.
    fn start_current_step(&self, i: usize, out: &mut Vec<Action>)
        requires
            index_fits(self.cyclic_work@, i),
        ensures
            final(out)@ == old(out)@ + begin_all(current_step(self.cyclic_work@, i as int)),
    {
        if i < self.cyclic_work.len() {
            let step = self.cyclic_work[i].0;
            self.start_work_step(&step, out);
            assert(begin_all(current_step(self.cyclic_work@, i as int)) =~= seq![Action::Begin(step)]);
        } else {
            assert(begin_all(current_step(self.cyclic_work@, i as int)) =~= Seq::<Action>::empty());
        }
    }

    /// Appends a release of the cyclic step at `i`, if there is one.
    fn stop_current_step(&self, i: usize, out: &mut Vec<Action>)
        requires
            index_fits(self.cyclic_work@, i),
        ensures
            final(out)@ == old(out)@ + end_all(current_step(self.cyclic_work@, i as int)),
    {
        if i < self.cyclic_work.len() {
            let step = self.cyclic_work[i].0;
            self.stop_work_step(&step, out);
            assert(end_all(current_step(self.cyclic_work@, i as int)) =~= seq![Action::End(step)]);
        } else {
            assert(end_all(current_step(self.cyclic_work@, i as int)) =~= Seq::<Action>::empty());
        }
    }

    /// One poll of the executor, given the signal and the active time of
    /// the running step as read by the caller.
    pub fn advance(&mut self, paused: bool, elapsed_ms: u128) -> (r: Reaction)
        requires
            old(self).wf(),
        ensures
            final(self).wf(),
            final(self).permanent_work@ == old(self).permanent_work@,
            final(self).cyclic_work@ == old(self).cyclic_work@,
            final(self).phase == next_phase(old(self).cyclic_work@, old(self).phase, paused, elapsed_ms),
            r.actions@ == reaction_actions(
                old(self).permanent_work@,
                old(self).cyclic_work@,
                old(self).phase,
                paused,
                elapsed_ms,
            ),
            r.timer == timer_op(old(self).cyclic_work@, old(self).phase, paused, elapsed_ms),
    {
        let mut out: Vec<Action> = Vec::new();
        let timer;
        match self.phase {
            Phase::AwaitingStart => {
                if paused {
                    timer = TimerOp::Keep;
                } else {
                    self.start_permanent_work(&mut out);
                    self.start_current_step(0, &mut out);
                    self.phase = Phase::Running(0);
                    timer = TimerOp::Restart;
                }
            },
            Phase::Running(i) => {
                if paused {
                    self.stop_permanent_work(&mut out);
                    self.stop_current_step(i, &mut out);
                    self.phase = Phase::Paused(i);
                    timer = TimerOp::Halt;
                } else if i < self.cyclic_work.len() && elapsed_ms >= self.cyclic_work[i].1 {
                    let step = self.cyclic_work[i].0;
                    self.stop_work_step(&step, &mut out);
                    let next: usize = if i + 1 < self.cyclic_work.len() {
                        i + 1
                    } else {
                        0
                    };
                    let next_step = self.cyclic_work[next].0;
                    self.start_work_step(&next_step, &mut out);
                    self.phase = Phase::Running(next);
                    timer = TimerOp::Restart;
                } else {
                    timer = TimerOp::Keep;
                }
            },
            Phase::Paused(i) => {
                if paused {
                    timer = TimerOp::Keep;
                } else {
                    self.start_permanent_work(&mut out);
                    self.start_current_step(i, &mut out);
                    self.phase = Phase::Running(i);
                    timer = TimerOp::Resume;
                }
            },
        }
        assert(out@ =~= reaction_actions(
            old(self).permanent_work@,
            old(self).cyclic_work@,
            old(self).phase,
            paused,
            elapsed_ms,
        ));
        Reaction { actions: out, timer }
    }

    /// Reads the running step's stopwatch, takes one poll with the signal
    /// `paused`, and applies the poll's stopwatch operation. Whatever the
    /// stopwatch read, the outcome is that of `advance` on some reading.
    pub fn poll(&mut self, paused: bool) -> (r: Vec<Action>)
        requires
            old(self).wf(),
        ensures
            final(self).wf(),
            final(self).permanent_work@ == old(self).permanent_work@,
            final(self).cyclic_work@ == old(self).cyclic_work@,
            exists|e: u128|
                #![trigger next_phase(old(self).cyclic_work@, old(self).phase, paused, e)]
                final(self).phase == next_phase(old(self).cyclic_work@, old(self).phase, paused, e)
                    && r@ == reaction_actions(
                    old(self).permanent_work@,
                    old(self).cyclic_work@,
                    old(self).phase,
                    paused,
                    e,
                ),
    {
        let elapsed = elapsed_ms(&self.stopwatch);
        let reaction = self.advance(paused, elapsed);
        match reaction.timer {
            TimerOp::Keep => {},
            TimerOp::Restart => restart_stopwatch(&mut self.stopwatch),
            TimerOp::Halt => halt_stopwatch(&mut self.stopwatch),
            TimerOp::Resume => resume_stopwatch(&mut self.stopwatch),
        }
        reaction.actions
    }

    /// Appends a step to the permanent work, before execution begins.
    pub fn add_permanent_work(&mut self, work_step: WorkStep)
        requires
            old(self).wf(),
            old(self).phase == Phase::AwaitingStart,
        ensures
            final(self).wf(),
            final(self).phase == Phase::AwaitingStart,
            final(self).permanent_work@ == old(self).permanent_work@.push(work_step),
            final(self).cyclic_work@ == old(self).cyclic_work@,
    {
        self.permanent_work.push(work_step);
    }

    /// Appends a timed step to the cyclic work, before execution begins.
    pub fn add_cyclic_work(&mut self, work_step: WorkStep, duration_ms: u64)
        requires
            old(self).wf(),
            old(self).phase == Phase::AwaitingStart,
        ensures
            final(self).wf(),
            final(self).phase == Phase::AwaitingStart,
            final(self).permanent_work@ == old(self).permanent_work@,
            final(self).cyclic_work@ == old(self).cyclic_work@.push((work_step, duration_ms as u128)),
    {
        self.cyclic_work.push((work_step, duration_ms as u128));
    }

    /// Takes the permanent work of `work` in place of the current one, and
    /// appends its cyclic work with the seconds turned into milliseconds.
    pub fn set_work(&mut self, work: Work)
        requires
            old(self).wf(),
            old(self).phase == Phase::AwaitingStart,
        ensures
            final(self).wf(),
            final(self).phase == Phase::AwaitingStart,
            final(self).permanent_work@ == work.permanent_work@,
            final(self).cyclic_work@ == old(self).cyclic_work@ + loaded_cyclic(work.cyclic_work@),
    {
        self.permanent_work = work.permanent_work;
        let n = work.cyclic_work.len();
        let mut i: usize = 0;
        while i < n
            invariant
                n == work.cyclic_work@.len(),
                i <= n,
                self.phase == Phase::AwaitingStart,
                self.permanent_work@ == work.permanent_work@,
                durations_fit(self.cyclic_work@),
                self.cyclic_work@ == old(self).cyclic_work@ + loaded_cyclic(
                    work.cyclic_work@.subrange(0, i as int),
                ),
            decreases n - i,
        {
            let (step, secs) = work.cyclic_work[i];
            self.cyclic_work.push((step, secs as u128 * 1000));
            assert(work.cyclic_work@.subrange(0, i + 1) == work.cyclic_work@.subrange(
                0,
                i as int,
            ).push((step, secs)));
            assert(loaded_cyclic(work.cyclic_work@.subrange(0, i + 1)) =~= loaded_cyclic(
                work.cyclic_work@.subrange(0, i as int),
            ).push((step, (secs * 1000) as u128)));
            i += 1;
        }
        assert(work.cyclic_work@.subrange(0, n as int) == work.cyclic_work@);
    }

    /// The work as a `Work`, durations rounded down to whole seconds.
    pub fn get_work(&self) -> (r: Work)
        requires
            self.wf(),
        ensures
            r.permanent_work@ == self.permanent_work@,
            r.cyclic_work@ == snapshot_cyclic(self.cyclic_work@),
    {
        let mut permanent_work: Vec<WorkStep> = Vec::new();
        let n = self.permanent_work.len();
        let mut i: usize = 0;
        while i < n
            invariant
                n == self.permanent_work@.len(),
                i <= n,
                permanent_work@ == self.permanent_work@.subrange(0, i as int),
            decreases n - i,
        {
            permanent_work.push(self.permanent_work[i]);
            assert(self.permanent_work@.subrange(0, i + 1) =~= self.permanent_work@.subrange(
                0,
                i as int,
            ).push(self.permanent_work@[i as int]));
            i += 1;
        }
        let mut cyclic_work: Vec<(WorkStep, u64)> = Vec::new();
        let m = self.cyclic_work.len();
        let mut j: usize = 0;
        while j < m
            invariant
                m == self.cyclic_work@.len(),
                j <= m,
                durations_fit(self.cyclic_work@),
                cyclic_work@ == snapshot_cyclic(self.cyclic_work@.subrange(0, j as int)),
            decreases m - j,
        {
            let (step, ms) = self.cyclic_work[j];
            assert(ms <= max_duration_ms());
            let secs = (ms / 1000) as u64;
            cyclic_work.push((step, secs));
            assert(snapshot_cyclic(self.cyclic_work@.subrange(0, j + 1)) =~= snapshot_cyclic(
                self.cyclic_work@.subrange(0, j as int),
            ).push((step, secs)));
            j += 1;
        }
        assert(self.permanent_work@.subrange(0, n as int) == self.permanent_work@);
        assert(self.cyclic_work@.subrange(0, m as int) == self.cyclic_work@);
        Work { permanent_work, cyclic_work }
    }
}

/// Relies on stopwatch::Stopwatch::new: a stopped stopwatch at zero.
#[verifier::external_body]
fn new_stopwatch() -> Stopwatch {
    Stopwatch::new()
}

/// Relies on stopwatch::Stopwatch::elapsed, in whole milliseconds: the
/// time counted so far, which depends on the clock.
#[verifier::external_body]
fn elapsed_ms(sw: &Stopwatch) -> u128 {
    sw.elapsed().as_millis()
}

/// Relies on stopwatch::Stopwatch::restart: zero the count and start it.
#[verifier::external_body]
fn restart_stopwatch(sw: &mut Stopwatch) {
    sw.restart()
}

/// Relies on stopwatch::Stopwatch::stop: keep what was counted and stop.
#[verifier::external_body]
fn halt_stopwatch(sw: &mut Stopwatch) {
    sw.stop()
}

/// Relies on stopwatch::Stopwatch::start: count on from what was kept.
#[verifier::external_body]
fn resume_stopwatch(sw: &mut Stopwatch) {
    sw.start()
}

} // verus!

//! Runs of polls, and what holds of every run.
use vstd::prelude::*;
use vstd::arithmetic::div_mod::lemma_mod_add_multiples_vanish;
use crate::farmer::{
    begin_all, current_step, end_all, index_fits, loaded_cyclic, next_phase, reaction_actions,
    snapshot_cyclic, step_done, timer_op, Phase, TimerOp,
};
use crate::work::{Action, WorkStep};

verus! {

/// The phase after a run of polls, each a signal reading and an
/// active-time reading.
pub open spec fn phase_after(cyc: Seq<(WorkStep, u128)>, p: Phase, polls: Seq<(bool, u128)>) -> Phase
    decreases polls.len(),
{
    if polls.len() == 0 {
        p
    } else {
        phase_after(cyc, next_phase(cyc, p, polls[0].0, polls[0].1), polls.drop_first())
    }
}

/// Every action issued during a run of polls, in order.
pub open spec fn actions_after(
    perm: Seq<WorkStep>,
    cyc: Seq<(WorkStep, u128)>,
    p: Phase,
    polls: Seq<(bool, u128)>,
) -> Seq<Action>
    decreases polls.len(),
{
    if polls.len() == 0 {
        Seq::empty()
    } else {
        reaction_actions(perm, cyc, p, polls[0].0, polls[0].1) + actions_after(
            perm,
            cyc,
            next_phase(cyc, p, polls[0].0, polls[0].1),
            polls.drop_first(),
        )
    }
}

/// Starting the permanent work and then stopping it presses every step in
/// list order and then releases every step in that same order.
pub proof fn lemma_start_stop_order(l: Seq<WorkStep>)
    ensures
        (begin_all(l) + end_all(l)).len() == 2 * l.len(),
        forall|k: int|
            0 <= k < l.len() ==> (begin_all(l) + end_all(l))[k] == Action::Begin(l[k]) && (begin_all(
                l,
            ) + end_all(l))[l.len() + k] == Action::End(l[k]),
{
}

/// With every step running its full duration and no pause, `k` polls from
/// the step at `i` reach the step at `(i + k) mod n`: after the last step
/// the first one plays again.
pub proof fn lemma_cyclic_wraparound(cyc: Seq<(WorkStep, u128)>, i: usize, polls: Seq<(bool, u128)>)
    requires
        0 < cyc.len() <= usize::MAX,
        i < cyc.len(),
        forall|j: int, m: int|
            0 <= j < polls.len() && 0 <= m < cyc.len() ==> !polls[j].0 && polls[j].1 >= cyc[m].1,
    ensures
        phase_after(cyc, Phase::Running(i), polls) == Phase::Running(
            ((i + polls.len()) % (cyc.len() as int)) as usize,
        ),
    decreases polls.len(),
{
    let n = cyc.len() as int;
    if polls.len() == 0 {
        assert((i as int) % n == i as int) by {
            vstd::arithmetic::div_mod::lemma_small_mod(i as nat, n as nat);
        }
    } else {
        assert(step_done(cyc, i, polls[0].1));
        let next: usize = if i + 1 < cyc.len() {
            (i + 1) as usize
        } else {
            0
        };
        let rest = polls.drop_first();
        assert forall|j: int, m: int| 0 <= j < rest.len() && 0 <= m < cyc.len() implies !rest[j].0
            && rest[j].1 >= cyc[m].1 by {
            assert(rest[j] == polls[j + 1]);
        }
        lemma_cyclic_wraparound(cyc, next, rest);
        assert(next_phase(cyc, Phase::Running(i), polls[0].0, polls[0].1) == Phase::Running(next));
        if i + 1 == n {
            lemma_mod_add_multiples_vanish(polls.len() - 1, n);
            assert(i + polls.len() == n + (polls.len() - 1));
        } else {
            assert(next + rest.len() == i + polls.len());
        }
    }
}

/// While the signal stays "paused", a paused executor stays where it is,
/// issues nothing and leaves the stopwatch untouched, however many polls
/// pass and whatever they read; the resume poll restarts the same step and
/// continues its stopwatch rather than zeroing it. A running step ends only
/// on a poll that reads at least its full duration of active time.
pub proof fn lemma_pause_freezes_step(
    perm: Seq<WorkStep>,
    cyc: Seq<(WorkStep, u128)>,
    i: usize,
    polls: Seq<(bool, u128)>,
    elapsed: u128,
)
    requires
        forall|j: int| 0 <= j < polls.len() ==> polls[j].0,
    ensures
        phase_after(cyc, Phase::Paused(i), polls) == Phase::Paused(i),
        actions_after(perm, cyc, Phase::Paused(i), polls) == Seq::<Action>::empty(),
        forall|j: int|
            0 <= j < polls.len() ==> timer_op(cyc, Phase::Paused(i), polls[j].0, polls[j].1)
                == TimerOp::Keep,
        next_phase(cyc, Phase::Paused(i), false, elapsed) == Phase::Running(i),
        timer_op(cyc, Phase::Paused(i), false, elapsed) == TimerOp::Resume,
        timer_op(cyc, Phase::Running(i), true, elapsed) == TimerOp::Halt,
        i < cyc.len() ==> (reaction_actions(perm, cyc, Phase::Running(i), false, elapsed)
            == Seq::<Action>::empty() <==> elapsed < cyc[i as int].1),
        i < cyc.len() ==> (timer_op(cyc, Phase::Running(i), false, elapsed) == TimerOp::Restart
            <==> elapsed >= cyc[i as int].1),
    decreases polls.len(),
{
    if i < cyc.len() && elapsed >= cyc[i as int].1 {
        assert(reaction_actions(perm, cyc, Phase::Running(i), false, elapsed).len() == 2);
    }
    if polls.len() > 0 {
        let rest = polls.drop_first();
        assert forall|j: int| 0 <= j < rest.len() implies rest[j].0 by {
            assert(rest[j] == polls[j + 1]);
        }
        lemma_pause_freezes_step(perm, cyc, i, rest, elapsed);
    }
}

/// The count of a stopwatch as the stopwatch crate keeps it: the time
/// kept from earlier running spans, and the instant it was last started
/// while it runs.
pub struct CountModel {
    pub kept: int,
    pub since: Option<int>,
}

/// What the count reads at the instant `now`.
pub open spec fn count_reading(c: CountModel, now: int) -> int {
    match c.since {
        Some(s) => c.kept + (now - s),
        None => c.kept,
    }
}

/// The count after the executor's stopwatch operation at the instant `now`.
pub open spec fn count_after(c: CountModel, op: TimerOp, now: int) -> CountModel {
    match op {
        TimerOp::Keep => c,
        TimerOp::Restart => CountModel { kept: 0, since: Some(now) },
        TimerOp::Halt => CountModel { kept: count_reading(c, now), since: None },
        TimerOp::Resume => CountModel { kept: c.kept, since: Some(now) },
    }
}

/// The phase and the count after a run of timed polls, each a signal
/// reading and the instant of the poll, the count being read at each poll.
pub open spec fn timed_run(
    cyc: Seq<(WorkStep, u128)>,
    p: Phase,
    c: CountModel,
    polls: Seq<(bool, int)>,
) -> (Phase, CountModel)
    decreases polls.len(),
{
    if polls.len() == 0 {
        (p, c)
    } else {
        let before = timed_run(cyc, p, c, polls.drop_last());
        let e = count_reading(before.1, polls.last().1) as u128;
        (
            next_phase(cyc, before.0, polls.last().0, e),
            count_after(before.1, timer_op(cyc, before.0, polls.last().0, e), polls.last().1),
        )
    }
}

/// No poll of the run starts a new cyclic step.
pub open spec fn no_step_change(
    cyc: Seq<(WorkStep, u128)>,
    p: Phase,
    c: CountModel,
    polls: Seq<(bool, int)>,
) -> bool
    decreases polls.len(),
{
    if polls.len() == 0 {
        true
    } else {
        let before = timed_run(cyc, p, c, polls.drop_last());
        let e = count_reading(before.1, polls.last().1) as u128;
        no_step_change(cyc, p, c, polls.drop_last()) && timer_op(
            cyc,
            before.0,
            polls.last().0,
            e,
        ) != TimerOp::Restart
    }
}

/// The instant of the last poll of a run that began at `t0`.
pub open spec fn last_instant(t0: int, polls: Seq<(bool, int)>) -> int {
    if polls.len() == 0 {
        t0
    } else {
        polls.last().1
    }
}

/// The time a run that began at `t0` spent running (not paused).
pub open spec fn active_time(
    cyc: Seq<(WorkStep, u128)>,
    p: Phase,
    c: CountModel,
    t0: int,
    polls: Seq<(bool, int)>,
) -> int
    decreases polls.len(),
{
    if polls.len() == 0 {
        0
    } else {
        let before = timed_run(cyc, p, c, polls.drop_last());
        active_time(cyc, p, c, t0, polls.drop_last()) + if before.0 is Running {
            polls.last().1 - last_instant(t0, polls.drop_last())
        } else {
            0
        }
    }
}

/// A run of timed polls from the instant `t0` at which the cyclic step at
/// `i` began, with its count at zero.
pub open spec fn run_of_step(
    cyc: Seq<(WorkStep, u128)>,
    i: usize,
    t0: int,
    polls: Seq<(bool, int)>,
) -> (Phase, CountModel) {
    timed_run(cyc, Phase::Running(i), CountModel { kept: 0, since: Some(t0) }, polls)
}

/// The active time of such a run.
pub open spec fn active_of_step(
    cyc: Seq<(WorkStep, u128)>,
    i: usize,
    t0: int,
    polls: Seq<(bool, int)>,
) -> int {
    active_time(cyc, Phase::Running(i), CountModel { kept: 0, since: Some(t0) }, t0, polls)
}

/// A cyclic step that began at `t0` ends on the first poll at which its
/// active time, paused spans left out, reaches its duration, however long
/// the pauses lasted: while it has not ended, its count reads exactly its
/// active time, and it stands still while paused.
pub proof fn lemma_step_counts_active_time(
    cyc: Seq<(WorkStep, u128)>,
    i: usize,
    t0: int,
    polls: Seq<(bool, int)>,
    now: int,
)
    requires
        i < cyc.len(),
        forall|j: int| 0 <= j < polls.len() ==> t0 <= #[trigger] polls[j].1,
        forall|j: int| 0 < j < polls.len() ==> polls[j - 1].1 <= #[trigger] polls[j].1,
        last_instant(t0, polls) <= now <= t0 + u128::MAX,
        no_step_change(cyc, Phase::Running(i), CountModel { kept: 0, since: Some(t0) }, polls),
    ensures
        run_of_step(cyc, i, t0, polls).0 == Phase::Running(i) || run_of_step(cyc, i, t0, polls).0
            == Phase::Paused(i),
        run_of_step(cyc, i, t0, polls).0 is Running <==> run_of_step(cyc, i, t0, polls).1.since is Some,
        count_reading(run_of_step(cyc, i, t0, polls).1, now) == active_of_step(cyc, i, t0, polls)
            + if run_of_step(cyc, i, t0, polls).0 is Running {
            now - last_instant(t0, polls)
        } else {
            0
        },
        timer_op(
            cyc,
            run_of_step(cyc, i, t0, polls).0,
            false,
            count_reading(run_of_step(cyc, i, t0, polls).1, now) as u128,
        ) == TimerOp::Restart <==> (run_of_step(cyc, i, t0, polls).0 is Running && active_of_step(
            cyc,
            i,
            t0,
            polls,
        ) + (now - last_instant(t0, polls)) >= cyc[i as int].1),
    decreases polls.len(),
{
    lemma_active_time_bound(cyc, i, t0, polls);
    if polls.len() > 0 {
        let prev = polls.drop_last();
        let t = polls.last().1;
        assert forall|j: int| 0 <= j < prev.len() implies t0 <= #[trigger] prev[j].1 by {
            assert(prev[j] == polls[j]);
        }
        assert forall|j: int| 0 < j < prev.len() implies prev[j - 1].1 <= #[trigger] prev[j].1 by {
            assert(prev[j] == polls[j]);
            assert(prev[j - 1] == polls[j - 1]);
        }
        assert(t0 <= polls[polls.len() - 1].1);
        if prev.len() > 0 {
            assert(prev.last() == polls[polls.len() - 2]);
            assert(polls[polls.len() - 2].1 <= polls[polls.len() - 1].1);
        }
        lemma_step_counts_active_time(cyc, i, t0, prev, t);
        lemma_active_time_bound(cyc, i, t0, prev);
        let bp = run_of_step(cyc, i, t0, prev).0;
        let bc = run_of_step(cyc, i, t0, prev).1;
        let r = count_reading(bc, t);
        assert(0 <= r <= u128::MAX);
        let e = r as u128;
        assert(e as int == r);
        let paused = polls.last().0;
        assert(timer_op(cyc, bp, paused, e) != TimerOp::Restart);
        let pc = run_of_step(cyc, i, t0, polls);
        assert(pc.0 == next_phase(cyc, bp, paused, e));
        assert(pc.1 == count_after(bc, timer_op(cyc, bp, paused, e), t));
        assert(last_instant(t0, polls) == t);
        if bp is Running {
            assert(bc.since is Some);
        }
    }
    let pc = run_of_step(cyc, i, t0, polls);
    let r = count_reading(pc.1, now);
    assert(0 <= r <= u128::MAX);
    assert((r as u128) as int == r);
}

/// The active time of a run never exceeds the time since it began.
pub proof fn lemma_active_time_bound(cyc: Seq<(WorkStep, u128)>, i: usize, t0: int, polls: Seq<(bool, int)>)
    requires
        forall|j: int| 0 <= j < polls.len() ==> t0 <= #[trigger] polls[j].1,
        forall|j: int| 0 < j < polls.len() ==> polls[j - 1].1 <= #[trigger] polls[j].1,
    ensures
        0 <= active_time(cyc, Phase::Running(i), CountModel { kept: 0, since: Some(t0) }, t0, polls)
            <= last_instant(t0, polls) - t0,
    decreases polls.len(),
{
    if polls.len() > 0 {
        let prev = polls.drop_last();
        assert forall|j: int| 0 <= j < prev.len() implies t0 <= #[trigger] prev[j].1 by {
            assert(prev[j] == polls[j]);
        }
        assert forall|j: int| 0 < j < prev.len() implies prev[j - 1].1 <= #[trigger] prev[j].1 by {
            assert(prev[j] == polls[j]);
            assert(prev[j - 1] == polls[j - 1]);
        }
        assert(t0 <= polls[polls.len() - 1].1);
        if prev.len() > 0 {
            assert(prev.last() == polls[polls.len() - 2]);
            assert(polls[polls.len() - 2].1 <= polls[polls.len() - 1].1);
        }
        lemma_active_time_bound(cyc, i, t0, prev);
    }
}

/// Holding the signal at "paused" over any number of polls issues the stop
/// sequence once, on the first of them.
pub proof fn lemma_pause_edge_once(
    perm: Seq<WorkStep>,
    cyc: Seq<(WorkStep, u128)>,
    i: usize,
    polls: Seq<(bool, u128)>,
)
    requires
        polls.len() > 0,
        forall|j: int| 0 <= j < polls.len() ==> polls[j].0,
    ensures
        phase_after(cyc, Phase::Running(i), polls) == Phase::Paused(i),
        actions_after(perm, cyc, Phase::Running(i), polls) == end_all(perm) + end_all(
            current_step(cyc, i as int),
        ),
{
    let rest = polls.drop_first();
    assert forall|j: int| 0 <= j < rest.len() implies rest[j].0 by {
        assert(rest[j] == polls[j + 1]);
    }
    lemma_pause_freezes_step(perm, cyc, i, rest, 0);
    assert(end_all(perm) + end_all(current_step(cyc, i as int)) + Seq::<Action>::empty() =~= end_all(
        perm,
    ) + end_all(current_step(cyc, i as int)));
}

/// A running executor issues nothing while the signal stays "not paused"
/// and its step has not had its full duration.
pub proof fn lemma_running_quiet(
    perm: Seq<WorkStep>,
    cyc: Seq<(WorkStep, u128)>,
    i: usize,
    polls: Seq<(bool, u128)>,
)
    requires
        forall|j: int| 0 <= j < polls.len() ==> !polls[j].0 && !step_done(cyc, i, polls[j].1),
    ensures
        phase_after(cyc, Phase::Running(i), polls) == Phase::Running(i),
        actions_after(perm, cyc, Phase::Running(i), polls) == Seq::<Action>::empty(),
    decreases polls.len(),
{
    if polls.len() > 0 {
        let rest = polls.drop_first();
        assert forall|j: int| 0 <= j < rest.len() implies !rest[j].0 && !step_done(
            cyc,
            i,
            rest[j].1,
        ) by {
            assert(rest[j] == polls[j + 1]);
        }
        lemma_running_quiet(perm, cyc, i, rest);
    }
}

/// Holding the signal at "not paused" after a pause issues the start
/// sequence once, on the first poll, and nothing more until the step has
/// had its full duration.
pub proof fn lemma_resume_edge_once(
    perm: Seq<WorkStep>,
    cyc: Seq<(WorkStep, u128)>,
    i: usize,
    polls: Seq<(bool, u128)>,
)
    requires
        polls.len() > 0,
        !polls[0].0,
        forall|j: int| 1 <= j < polls.len() ==> !polls[j].0 && !step_done(cyc, i, polls[j].1),
    ensures
        phase_after(cyc, Phase::Paused(i), polls) == Phase::Running(i),
        actions_after(perm, cyc, Phase::Paused(i), polls) == begin_all(perm) + begin_all(
            current_step(cyc, i as int),
        ),
{
    let rest = polls.drop_first();
    assert forall|j: int| 0 <= j < rest.len() implies !rest[j].0 && !step_done(cyc, i, rest[j].1) by {
        assert(rest[j] == polls[j + 1]);
    }
    lemma_running_quiet(perm, cyc, i, rest);
    assert(begin_all(perm) + begin_all(current_step(cyc, i as int)) + Seq::<Action>::empty()
        =~= begin_all(perm) + begin_all(current_step(cyc, i as int)));
}

/// While the signal reads "paused" from the outset, nothing is pressed.
pub proof fn lemma_no_begin_before_resume(
    perm: Seq<WorkStep>,
    cyc: Seq<(WorkStep, u128)>,
    polls: Seq<(bool, u128)>,
)
    requires
        forall|j: int| 0 <= j < polls.len() ==> polls[j].0,
    ensures
        phase_after(cyc, Phase::AwaitingStart, polls) == Phase::AwaitingStart,
        actions_after(perm, cyc, Phase::AwaitingStart, polls) == Seq::<Action>::empty(),
    decreases polls.len(),
{
    if polls.len() > 0 {
        let rest = polls.drop_first();
        assert forall|j: int| 0 <= j < rest.len() implies rest[j].0 by {
            assert(rest[j] == polls[j + 1]);
        }
        lemma_no_begin_before_resume(perm, cyc, rest);
    }
}

/// Loading a cyclic list of whole seconds into an empty executor and taking
/// it back gives the same list.
pub proof fn lemma_snapshot_of_load(c: Seq<(WorkStep, u64)>)
    ensures
        snapshot_cyclic(Seq::<(WorkStep, u128)>::empty() + loaded_cyclic(c)) == c,
{
    assert(Seq::<(WorkStep, u128)>::empty() + loaded_cyclic(c) =~= loaded_cyclic(c));
    assert(snapshot_cyclic(loaded_cyclic(c)) =~= c);
}

} // verus!

use enigo::{Button, Key};
use farmer::farmer::{Farmer, Phase, TimerOp};
use farmer::work::{Action, Work, WorkStep};

fn left() -> WorkStep {
    WorkStep::Mouse(Button::Left)
}

fn key_d() -> WorkStep {
    WorkStep::Key(Key::Unicode('d'))
}

fn key(c: char) -> WorkStep {
    WorkStep::Key(Key::Unicode(c))
}

fn scenario_farmer() -> Farmer {
    let mut f = Farmer::new();
    f.set_work(Work { permanent_work: vec![left()], cyclic_work: vec![(key_d(), 2)] });
    f
}

#[test]
fn scenario_a_repeats_the_cyclic_step() {
    let mut f = scenario_farmer();
    let r = f.advance(false, 0);
    assert_eq!(r.actions, vec![Action::Begin(left()), Action::Begin(key_d())]);
    assert_eq!(r.timer, TimerOp::Restart);
    for _ in 0..3 {
        let r = f.advance(false, 1000);
        assert!(r.actions.is_empty());
        assert_eq!(r.timer, TimerOp::Keep);
        let r = f.advance(false, 1999);
        assert!(r.actions.is_empty());
        let r = f.advance(false, 2000);
        assert_eq!(r.actions, vec![Action::End(key_d()), Action::Begin(key_d())]);
        assert_eq!(r.timer, TimerOp::Restart);
        assert_eq!(f.phase, Phase::Running(0));
    }
}

#[test]
fn scenario_b_pause_keeps_the_remaining_second() {
    let mut f = scenario_farmer();
    let r = f.advance(false, 0);
    assert_eq!(r.actions, vec![Action::Begin(left()), Action::Begin(key_d())]);
    assert!(f.advance(false, 900).actions.is_empty());
    let r = f.advance(true, 1000);
    assert_eq!(r.actions, vec![Action::End(left()), Action::End(key_d())]);
    assert_eq!(r.timer, TimerOp::Halt);
    assert_eq!(f.phase, Phase::Paused(0));
    for _ in 0..30 {
        let r = f.advance(true, 1000);
        assert!(r.actions.is_empty());
        assert_eq!(r.timer, TimerOp::Keep);
    }
    let r = f.advance(false, 1000);
    assert_eq!(r.actions, vec![Action::Begin(left()), Action::Begin(key_d())]);
    assert_eq!(r.timer, TimerOp::Resume);
    assert!(f.advance(false, 1500).actions.is_empty());
    let r = f.advance(false, 2000);
    assert_eq!(r.actions, vec![Action::End(key_d()), Action::Begin(key_d())]);
}

#[test]
fn permanent_work_starts_and_stops_in_list_order() {
    let mut f = Farmer::new();
    f.add_permanent_work(left());
    f.add_permanent_work(key('a'));
    f.add_permanent_work(WorkStep::Key(Key::Shift));
    let mut out = Vec::new();
    f.start_permanent_work(&mut out);
    f.stop_permanent_work(&mut out);
    assert_eq!(
        out,
        vec![
            Action::Begin(left()),
            Action::Begin(key('a')),
            Action::Begin(WorkStep::Key(Key::Shift)),
            Action::End(left()),
            Action::End(key('a')),
            Action::End(WorkStep::Key(Key::Shift)),
        ]
    );
}

fn wraps_after(n: u64) {
    let mut f = Farmer::new();
    for k in 0..n {
        f.add_cyclic_work(WorkStep::Key(Key::Other(k as u32)), 1000 + k);
    }
    f.advance(false, 0);
    assert_eq!(f.phase, Phase::Running(0));
    for k in 0..n {
        let r = f.advance(false, (1000 + k) as u128);
        let next = (k + 1) % n;
        assert_eq!(
            r.actions,
            vec![
                Action::End(WorkStep::Key(Key::Other(k as u32))),
                Action::Begin(WorkStep::Key(Key::Other(next as u32))),
            ]
        );
    }
    assert_eq!(f.phase, Phase::Running(0));
}

#[test]
fn cyclic_work_wraps_around_for_one_step() {
    wraps_after(1);
}

#[test]
fn cyclic_work_wraps_around_for_five_steps() {
    wraps_after(5);
}

#[test]
fn cyclic_work_wraps_around_for_a_hundred_steps() {
    wraps_after(100);
}

#[test]
fn step_not_finished_before_its_duration() {
    let mut f = scenario_farmer();
    f.advance(false, 0);
    let r = f.advance(false, 1999);
    assert!(r.actions.is_empty());
    assert_eq!(f.phase, Phase::Running(0));
}

#[test]
fn held_pause_stops_once_and_held_resume_starts_once() {
    let mut f = scenario_farmer();
    f.advance(false, 0);
    let mut stops = 0;
    for _ in 0..10 {
        stops += f.advance(true, 500).actions.len();
    }
    assert_eq!(stops, 2);
    let mut starts = 0;
    for _ in 0..10 {
        starts += f.advance(false, 500).actions.len();
    }
    assert_eq!(starts, 2);
    assert_eq!(f.phase, Phase::Running(0));
}

#[test]
fn paused_at_startup_presses_nothing_until_resumed() {
    let mut f = scenario_farmer();
    for _ in 0..10 {
        let r = f.advance(true, 5000);
        assert!(r.actions.is_empty());
        assert_eq!(r.timer, TimerOp::Keep);
        assert_eq!(f.phase, Phase::AwaitingStart);
    }
    let r = f.advance(false, 5000);
    assert_eq!(r.actions, vec![Action::Begin(left()), Action::Begin(key_d())]);
    assert_eq!(r.timer, TimerOp::Restart);
}

#[test]
fn snapshot_of_load_gives_the_work_back() {
    let mut f = Farmer::new();
    f.set_work(Work {
        permanent_work: vec![left(), key('q')],
        cyclic_work: vec![(key_d(), 2), (WorkStep::Mouse(Button::Right), 0), (key('x'), 17)],
    });
    let w = f.get_work();
    assert_eq!(
        w,
        Work {
            permanent_work: vec![left(), key('q')],
            cyclic_work: vec![(key_d(), 2), (WorkStep::Mouse(Button::Right), 0), (key('x'), 17)],
        }
    );
}

#[test]
fn load_turns_seconds_into_milliseconds() {
    let mut f = Farmer::new();
    f.set_work(Work { permanent_work: vec![], cyclic_work: vec![(key_d(), 3), (key('e'), u64::MAX)] });
    assert_eq!(f.cyclic_work[0].1, 3000);
    assert_eq!(f.cyclic_work[1].1, u64::MAX as u128 * 1000);
    assert_eq!(f.get_work().cyclic_work[1].1, u64::MAX);
}

#[test]
fn snapshot_rounds_durations_down_to_seconds() {
    let mut f = Farmer::new();
    f.add_cyclic_work(key_d(), 2999);
    f.add_cyclic_work(key('e'), 999);
    assert_eq!(f.get_work().cyclic_work, vec![(key_d(), 2), (key('e'), 0)]);
}

#[test]
fn load_replaces_permanent_and_appends_cyclic() {
    let mut f = Farmer::new();
    f.add_permanent_work(key('z'));
    f.add_cyclic_work(key('y'), 500);
    f.set_work(Work { permanent_work: vec![left()], cyclic_work: vec![(key_d(), 1)] });
    assert_eq!(f.permanent_work, vec![left()]);
    assert_eq!(f.cyclic_work, vec![(key('y'), 500), (key_d(), 1000)]);
}

#[test]
fn zero_duration_step_finishes_on_first_poll() {
    let mut f = Farmer::new();
    f.add_cyclic_work(key('a'), 0);
    f.add_cyclic_work(key('b'), 1000);
    f.advance(false, 0);
    let r = f.advance(false, 0);
    assert_eq!(r.actions, vec![Action::End(key('a')), Action::Begin(key('b'))]);
    assert_eq!(f.phase, Phase::Running(1));
}

#[test]
fn empty_cyclic_work_holds_permanent_work_only() {
    let mut f = Farmer::new();
    f.add_permanent_work(left());
    assert_eq!(f.advance(false, 0).actions, vec![Action::Begin(left())]);
    assert!(f.advance(false, 99999).actions.is_empty());
    assert_eq!(f.advance(true, 0).actions, vec![Action::End(left())]);
    assert_eq!(f.advance(false, 0).actions, vec![Action::Begin(left())]);
}

#[test]
fn poll_follows_the_signal() {
    let mut f = scenario_farmer();
    assert!(f.poll(true).is_empty());
    assert_eq!(f.phase, Phase::AwaitingStart);
    assert_eq!(f.poll(false), vec![Action::Begin(left()), Action::Begin(key_d())]);
    assert!(f.poll(false).is_empty());
    assert_eq!(f.poll(true), vec![Action::End(left()), Action::End(key_d())]);
    assert!(f.poll(true).is_empty());
    assert_eq!(f.phase, Phase::Paused(0));
    assert_eq!(f.poll(false), vec![Action::Begin(left()), Action::Begin(key_d())]);
    assert_eq!(f.phase, Phase::Running(0));
}

use deplorable::trigger::{Action, BuildTrigger, Phase, Worker};

#[test]
fn a_new_trigger_has_nothing_pending() {
    let mut trigger = BuildTrigger::new();
    assert!(!trigger.is_pending());
    assert!(!trigger.take());
}

#[test]
fn a_signal_is_taken_once() {
    let mut trigger = BuildTrigger::new();
    trigger.signal();
    assert!(trigger.is_pending());
    assert!(trigger.take());
    assert!(!trigger.is_pending());
    assert!(!trigger.take());
}

#[test]
fn a_worker_builds_at_once_when_it_starts() {
    let mut trigger = BuildTrigger::new();
    let mut worker = Worker::new();
    assert_eq!(worker.current(), Phase::Start);
    assert_eq!(worker.next(&mut trigger), Action::Build);
    assert_eq!(worker.current(), Phase::Building);
}

#[test]
fn the_first_build_leaves_a_signal_pending() {
    let mut trigger = BuildTrigger::new();
    trigger.signal();
    let mut worker = Worker::new();
    assert_eq!(worker.next(&mut trigger), Action::Build);
    assert!(trigger.is_pending());
    assert_eq!(worker.next(&mut trigger), Action::Build);
    assert!(!trigger.is_pending());
    assert_eq!(worker.next(&mut trigger), Action::Wait);
}

#[test]
fn a_worker_waits_when_nothing_is_pending() {
    let mut trigger = BuildTrigger::new();
    let mut worker = Worker::new();
    assert_eq!(worker.next(&mut trigger), Action::Build);
    assert_eq!(worker.next(&mut trigger), Action::Wait);
    assert_eq!(worker.current(), Phase::Waiting);
    assert_eq!(worker.next(&mut trigger), Action::Wait);
    assert_eq!(worker.current(), Phase::Waiting);
}

#[test]
fn signals_during_a_build_make_one_more_build() {
    for count in 1..6 {
        let mut trigger = BuildTrigger::new();
        let mut worker = Worker::new();
        let mut builds = 0;
        assert_eq!(worker.next(&mut trigger), Action::Build);
        builds += 1;
        for _ in 0..count {
            trigger.signal();
        }
        let mut moves = 0;
        while worker.next(&mut trigger) == Action::Build {
            builds += 1;
            moves += 1;
            assert!(moves < 10);
        }
        assert_eq!(builds, 2);
        assert_eq!(worker.current(), Phase::Waiting);
    }
}

#[test]
fn a_signal_while_waiting_starts_a_build() {
    let mut trigger = BuildTrigger::new();
    let mut worker = Worker::new();
    assert_eq!(worker.next(&mut trigger), Action::Build);
    assert_eq!(worker.next(&mut trigger), Action::Wait);
    trigger.signal();
    assert_eq!(worker.next(&mut trigger), Action::Build);
    assert_eq!(worker.current(), Phase::Building);
    assert_eq!(worker.next(&mut trigger), Action::Wait);
}

#[test]
fn a_worker_is_in_one_phase_at_a_time() {
    let mut trigger = BuildTrigger::new();
    let mut worker = Worker::new();
    let mut running = 0;
    let script = [false, true, true, false, false, true, false, false];
    for signal in script {
        if worker.current() == Phase::Building {
            running -= 1;
        }
        if signal {
            trigger.signal();
        }
        if worker.next(&mut trigger) == Action::Build {
            running += 1;
        }
        assert!(running == 0 || running == 1);
        assert_eq!(running == 1, worker.current() == Phase::Building);
    }
}

use instanttee::round::{Phase, RoundBarrier, RoundEvent, Stage};

#[test]
fn barrier_starts_in_the_filling_phase() {
    let barrier = RoundBarrier::new(3);
    assert_eq!(barrier.sinks(), 3);
    assert_eq!(barrier.phase(), Phase::Filling);
    assert_eq!(barrier.counter(), 0);
    assert_eq!(barrier.stage(0), Some(Stage::Ready));
    assert_eq!(barrier.stage(2), Some(Stage::Ready));
    assert_eq!(barrier.stage(3), None);
    assert_eq!(barrier.length(), 0);
    assert!(!barrier.may_drain());
}

#[test]
fn barrier_remembers_how_much_the_round_holds() {
    let mut barrier = RoundBarrier::new(0);
    assert!(barrier.apply(RoundEvent::Filled(7)));
    assert_eq!(barrier.length(), 7);
    assert!(barrier.apply(RoundEvent::Drained));
    assert!(barrier.apply(RoundEvent::Released));
    assert!(barrier.apply(RoundEvent::Filled(0)));
    assert_eq!(barrier.length(), 0);
}

#[test]
fn drain_is_refused_until_every_sink_has_joined() {
    let mut barrier = RoundBarrier::new(2);
    assert!(!barrier.apply(RoundEvent::Drained));
    assert!(barrier.apply(RoundEvent::Filled(3)));
    assert_eq!(barrier.phase(), Phase::Replicating);
    assert!(!barrier.apply(RoundEvent::Drained));
    assert!(barrier.apply(RoundEvent::Copied(1)));
    assert!(!barrier.apply(RoundEvent::Drained));
    assert!(barrier.apply(RoundEvent::Joined(1)));
    assert_eq!(barrier.counter(), 1);
    assert!(!barrier.may_drain());
    assert!(!barrier.apply(RoundEvent::Drained));
    assert!(barrier.apply(RoundEvent::Copied(0)));
    assert!(!barrier.apply(RoundEvent::Drained));
    assert!(barrier.apply(RoundEvent::Joined(0)));
    assert_eq!(barrier.counter(), 2);
    assert_eq!(barrier.phase(), Phase::Draining);
    assert!(barrier.may_drain());
    assert!(barrier.apply(RoundEvent::Drained));
    assert_eq!(barrier.counter(), 0);
    assert_eq!(barrier.phase(), Phase::Released);
}

#[test]
fn reports_out_of_turn_change_nothing() {
    let mut barrier = RoundBarrier::new(2);
    assert!(!barrier.apply(RoundEvent::Copied(0)));
    assert!(!barrier.apply(RoundEvent::Joined(0)));
    assert!(!barrier.apply(RoundEvent::Released));
    assert_eq!(barrier.phase(), Phase::Filling);
    assert!(barrier.apply(RoundEvent::Filled(3)));
    assert!(!barrier.apply(RoundEvent::Filled(3)));
    assert!(!barrier.apply(RoundEvent::Joined(0)));
    assert!(!barrier.apply(RoundEvent::Copied(2)));
    assert!(barrier.apply(RoundEvent::Copied(0)));
    assert!(!barrier.apply(RoundEvent::Copied(0)));
    assert_eq!(barrier.stage(0), Some(Stage::Copied));
    assert_eq!(barrier.stage(1), Some(Stage::Ready));
    assert!(barrier.apply(RoundEvent::Joined(0)));
    assert!(!barrier.apply(RoundEvent::Joined(0)));
    assert!(!barrier.apply(RoundEvent::Copied(0)));
    assert_eq!(barrier.stage(0), Some(Stage::Joined));
    assert_eq!(barrier.counter(), 1);
    assert_eq!(barrier.phase(), Phase::Replicating);
}

#[test]
fn release_starts_the_next_round() {
    let mut barrier = RoundBarrier::new(1);
    for _ in 0..3 {
        assert!(barrier.apply(RoundEvent::Filled(3)));
        assert!(barrier.apply(RoundEvent::Copied(0)));
        assert!(barrier.apply(RoundEvent::Joined(0)));
        assert!(!barrier.apply(RoundEvent::Released));
        assert!(barrier.apply(RoundEvent::Drained));
        assert_eq!(barrier.stage(0), Some(Stage::Joined));
        assert!(barrier.apply(RoundEvent::Released));
        assert_eq!(barrier.phase(), Phase::Filling);
        assert_eq!(barrier.stage(0), Some(Stage::Ready));
        assert_eq!(barrier.counter(), 0);
    }
}

#[test]
fn without_sinks_a_filled_round_can_be_drained_at_once() {
    let mut barrier = RoundBarrier::new(0);
    assert!(!barrier.may_drain());
    assert!(barrier.apply(RoundEvent::Filled(3)));
    assert_eq!(barrier.phase(), Phase::Draining);
    assert!(barrier.may_drain());
    assert!(barrier.apply(RoundEvent::Drained));
    assert!(barrier.apply(RoundEvent::Released));
    assert_eq!(barrier.phase(), Phase::Filling);
}

#[test]
fn stop_ends_everything() {
    let mut barrier = RoundBarrier::new(1);
    assert!(barrier.apply(RoundEvent::Filled(3)));
    assert!(barrier.admits(RoundEvent::Stopped));
    assert!(barrier.apply(RoundEvent::Stopped));
    assert_eq!(barrier.phase(), Phase::Finished);
    assert!(!barrier.admits(RoundEvent::Filled(3)));
    assert!(!barrier.apply(RoundEvent::Copied(0)));
    assert!(!barrier.apply(RoundEvent::Drained));
    assert!(!barrier.apply(RoundEvent::Released));
    assert!(!barrier.apply(RoundEvent::Stopped));
    assert!(!barrier.may_drain());
}

#[test]
fn stop_is_taken_in_every_phase_but_once() {
    let mut filling = RoundBarrier::new(1);
    assert!(filling.apply(RoundEvent::Stopped));
    assert!(!filling.apply(RoundEvent::Stopped));
    assert!(!filling.apply(RoundEvent::Filled(3)));

    let mut released = RoundBarrier::new(0);
    assert!(released.apply(RoundEvent::Filled(3)));
    assert!(released.apply(RoundEvent::Drained));
    assert_eq!(released.phase(), Phase::Released);
    assert!(released.apply(RoundEvent::Stopped));
    assert_eq!(released.phase(), Phase::Finished);
    assert!(!released.apply(RoundEvent::Released));
}

use aim_room::clock::{Clock, Phase, Tally, TickPlan};

#[test]
fn pause_stops_time_and_resume_restores_the_phase() {
    let mut clock = Clock::new(false);
    assert_eq!(clock.phase(), Phase::Countdown);
    assert_eq!(clock.begin_tick(true, false), TickPlan::CountingDown);
    clock.pause();
    assert_eq!(clock.phase(), Phase::Paused);
    assert_eq!(clock.begin_tick(true, false), TickPlan::Ignore);
    clock.pause();
    assert_eq!(clock.phase(), Phase::Paused);
    clock.resume();
    assert_eq!(clock.phase(), Phase::Countdown);
    clock.countdown_done();
    assert_eq!(clock.phase(), Phase::Running);
    clock.pause();
    clock.resume();
    assert_eq!(clock.phase(), Phase::Running);
    clock.resume();
    assert_eq!(clock.phase(), Phase::Running);
}

#[test]
fn unusable_frames_are_ignored_and_stalls_pause() {
    let mut clock = Clock::new(false);
    clock.countdown_done();
    assert_eq!(clock.begin_tick(false, false), TickPlan::Ignore);
    assert_eq!(clock.phase(), Phase::Running);
    assert_eq!(clock.begin_tick(true, false), TickPlan::Playing);
    assert_eq!(clock.begin_tick(true, true), TickPlan::Stalled);
    assert_eq!(clock.phase(), Phase::Paused);
    clock.resume();
    assert_eq!(clock.phase(), Phase::Running);
}

#[test]
fn challenges_finish_and_free_play_does_not() {
    let mut challenge = Clock::new(false);
    challenge.time_up();
    assert_eq!(challenge.phase(), Phase::Countdown);
    challenge.countdown_done();
    challenge.time_up();
    assert_eq!(challenge.phase(), Phase::Finished);
    assert!(challenge.owes_result());
    challenge.pause();
    challenge.resume();
    assert_eq!(challenge.phase(), Phase::Finished);
    assert_eq!(challenge.begin_tick(true, true), TickPlan::Ignore);
    assert!(!challenge.is_live());

    let mut free = Clock::new(true);
    assert!(free.free_play());
    free.countdown_done();
    free.time_up();
    assert_eq!(free.phase(), Phase::Running);
    assert!(!free.owes_result());
    assert!(free.is_live());
}

#[test]
fn tally_counts_hits_within_shots() {
    let mut tally = Tally::new();
    tally.shot(true);
    tally.shot(false);
    tally.shot(true);
    assert_eq!(tally.hits(), 2);
    assert_eq!(tally.shots(), 3);
}

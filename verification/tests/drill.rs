use aim_room::drill::{Drill, Filter, Mode, SensScale};

#[test]
fn drills_have_names_modes_and_target_counts() {
    assert_eq!(Drill::Six.name(), "1wall 6targets");
    assert_eq!(Drill::Switching.name(), "Target Switching");
    assert_eq!(Drill::Frenzy.mode(), Mode::Click);
    assert_eq!(Drill::Strafes.mode(), Mode::Track);
    assert_eq!(Drill::Switching.mode(), Mode::Switch);
    let counts: Vec<usize> = Drill::ALL.iter().map(|d| d.count()).collect();
    assert_eq!(counts, vec![6, 3, 5, 1, 1, 4]);
    assert_eq!(Drill::Micro.category(), "CLICKING");
    assert_eq!(Drill::Smooth.category(), "TRACKING");
    assert_eq!(Drill::Switching.category(), "SWITCHING");
    assert_eq!(Drill::Six.cue(), "CLICK EACH TARGET");
    assert_eq!(Drill::Smooth.cue(), "HOLD FIRE AND FOLLOW");
    assert_eq!(Drill::Switching.scoring(), "Score = targets cleared x 100");
    assert!(Drill::Switching.description().contains("0.3 seconds"));
}

#[test]
fn the_library_lists_each_drill_once() {
    for (i, a) in Drill::ALL.iter().enumerate() {
        for b in &Drill::ALL[i + 1..] {
            assert_ne!(a, b);
        }
    }
}

#[test]
fn scales_cycle_through_all_four() {
    let mut scale = SensScale::default();
    assert_eq!(scale, SensScale::Source);
    let mut seen = Vec::new();
    for _ in 0..4 {
        seen.push(scale.name());
        scale = scale.next();
    }
    assert_eq!(scale, SensScale::Source);
    assert_eq!(seen, vec!["Source / Quake", "Valorant", "Overwatch", "Marvel Rivals"]);
}

#[test]
fn filters_split_the_library_by_mode() {
    for drill in Drill::ALL {
        assert!(Filter::All.accepts(drill));
        let families = [Filter::Clicking, Filter::Tracking, Filter::Switching]
            .iter()
            .filter(|f| f.accepts(drill))
            .count();
        assert_eq!(families, 1);
    }
    assert!(Filter::Clicking.accepts(Drill::Micro));
    assert!(!Filter::Clicking.accepts(Drill::Smooth));
    assert!(Filter::Tracking.accepts(Drill::Strafes));
    assert!(Filter::Switching.accepts(Drill::Switching));
}

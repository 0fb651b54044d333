use aim_room::records::{age, counts_plausible, keep_recent, push_recent, Age, HISTORY_LIMIT};
use aim_room::settings::{
    crosshair_color_or_default, fps_limit_or_default, next_fps_limit, target_color_or_default,
};

#[test]
fn history_keeps_the_last_hundred_results() {
    let mut history: Vec<u32> = (0..150).collect();
    keep_recent(&mut history);
    assert_eq!(history.len(), HISTORY_LIMIT);
    assert_eq!(history[0], 50);
    assert_eq!(history[99], 149);
    push_recent(&mut history, 150);
    assert_eq!(history.len(), 100);
    assert_eq!(history[0], 51);
    assert_eq!(*history.last().unwrap(), 150);
    let mut short = vec![1, 2, 3];
    keep_recent(&mut short);
    assert_eq!(short, vec![1, 2, 3]);
    push_recent(&mut short, 4);
    assert_eq!(short, vec![1, 2, 3, 4]);
}

#[test]
fn implausible_counts_are_refused() {
    assert!(counts_plausible(5, 10, 1));
    assert!(!counts_plausible(11, 10, 1));
    assert!(!counts_plausible(0, 100_001, 1));
    assert!(counts_plausible(0, 100_000, 1));
    assert!(!counts_plausible(0, 0, 0));
}

#[test]
fn ages_are_worded_in_buckets() {
    assert_eq!(age(100, 100), Age::JustNow);
    assert_eq!(age(159, 100), Age::JustNow);
    assert_eq!(age(160, 100), Age::Minutes(1));
    assert_eq!(age(3_700, 100), Age::Hours(1));
    assert_eq!(age(100 + 86_400 * 3, 100), Age::Days(3));
    assert_eq!(age(0, 500), Age::JustNow);
}

#[test]
fn settings_choices_are_validated() {
    assert_eq!(target_color_or_default(10), 0);
    assert_eq!(target_color_or_default(4), 4);
    assert_eq!(crosshair_color_or_default(4), 0);
    assert_eq!(crosshair_color_or_default(3), 3);
    assert_eq!(fps_limit_or_default(u32::MAX), 360);
    assert_eq!(fps_limit_or_default(0), 0);
    assert_eq!(fps_limit_or_default(144), 144);
    assert_eq!(fps_limit_or_default(60), 360);
    let mut fps = 360;
    let mut seen = Vec::new();
    for _ in 0..5 {
        fps = next_fps_limit(fps);
        seen.push(fps);
    }
    assert_eq!(seen, vec![500, 0, 144, 240, 360]);
    assert_eq!(next_fps_limit(77), 144);
}

use aim_room::clock::Phase;
use aim_room::nav::{keyboard_action, Action, Effect, Keys, Nav, Screen};

#[test]
fn settings_return_to_the_screen_they_came_from() {
    let mut nav = Nav::new();
    assert_eq!(nav.screen(), Screen::Library);
    assert_eq!(nav.act(Action::Start(false), false), Effect::StartSession(false));
    assert_eq!(nav.screen(), Screen::Play);
    assert_eq!(nav.act(Action::Settings, false), Effect::PauseSession);
    assert_eq!(nav.screen(), Screen::Settings);
    assert_eq!(nav.act(Action::Back, false), Effect::SaveSettings);
    assert_eq!(nav.screen(), Screen::Play);
    assert_eq!(nav.act(Action::History, false), Effect::Nothing);
    assert_eq!(nav.act(Action::Settings, false), Effect::PauseSession);
    nav.act(Action::Back, false);
    assert_eq!(nav.screen(), Screen::History);
}

#[test]
fn restart_keeps_free_play_and_leaving_pauses() {
    let mut nav = Nav::new();
    assert_eq!(nav.act(Action::Restart, true), Effect::StartSession(true));
    assert_eq!(nav.act(Action::Library, true), Effect::PauseSession);
    assert_eq!(nav.screen(), Screen::Library);
    assert_eq!(nav.act(Action::Resume, true), Effect::ResumeSession);
    assert_eq!(nav.screen(), Screen::Play);
    assert_eq!(nav.act(Action::Quit, true), Effect::Nothing);
    assert_eq!(nav.act(Action::Idle, true), Effect::Nothing);
    assert_eq!(nav.screen(), Screen::Play);
}

#[test]
fn only_live_sessions_on_the_play_screen_are_active() {
    let mut nav = Nav::new();
    assert!(!nav.is_active(Phase::Running));
    nav.act(Action::Start(false), false);
    assert!(nav.is_active(Phase::Countdown));
    assert!(nav.is_active(Phase::Running));
    assert!(!nav.is_active(Phase::Paused));
    assert!(!nav.is_active(Phase::Finished));
}

#[test]
fn a_result_is_recorded_once_per_session() {
    let mut nav = Nav::new();
    nav.act(Action::Start(false), false);
    assert!(!nav.take_record(false));
    assert!(nav.take_record(true));
    assert!(!nav.take_record(true));
    nav.act(Action::Restart, false);
    assert!(nav.take_record(true));
}

fn keys(escape: bool, restart: bool, enter: bool, settings: bool) -> Keys {
    Keys { escape, restart, enter, settings }
}

#[test]
fn escape_pauses_resumes_and_leaves() {
    let esc = keys(true, false, false, false);
    assert_eq!(keyboard_action(Screen::Play, Phase::Running, esc), (true, Action::Idle));
    assert_eq!(keyboard_action(Screen::Play, Phase::Countdown, esc), (true, Action::Idle));
    assert_eq!(keyboard_action(Screen::Play, Phase::Paused, esc), (false, Action::Resume));
    assert_eq!(keyboard_action(Screen::Play, Phase::Finished, esc), (false, Action::Library));
    assert_eq!(keyboard_action(Screen::Settings, Phase::Paused, esc), (false, Action::Back));
    assert_eq!(keyboard_action(Screen::History, Phase::Finished, esc), (false, Action::Library));
    assert_eq!(keyboard_action(Screen::Library, Phase::Finished, esc), (false, Action::Idle));
}

#[test]
fn later_keys_win() {
    assert_eq!(
        keyboard_action(Screen::Play, Phase::Paused, keys(true, true, false, false)),
        (false, Action::Restart)
    );
    assert_eq!(
        keyboard_action(Screen::Library, Phase::Finished, keys(false, false, true, true)),
        (false, Action::Settings)
    );
    assert_eq!(
        keyboard_action(Screen::Library, Phase::Finished, keys(false, true, true, false)),
        (false, Action::Start(false))
    );
    assert_eq!(
        keyboard_action(Screen::Settings, Phase::Running, keys(false, true, true, true)),
        (false, Action::Idle)
    );
    assert_eq!(
        keyboard_action(Screen::Play, Phase::Running, keys(false, false, false, false)),
        (false, Action::Idle)
    );
}

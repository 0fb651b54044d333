use vstd::prelude::*;

use crate::clock::{is_live, Phase};

verus! {

/// The screens of the application.
#[derive(Clone, Copy, Debug, PartialEq, Eq, Structural)]
pub enum Screen {
    Library,
    Settings,
    History,
    Play,
}

/// What the user asked for this frame.
#[derive(Clone, Copy, Debug, PartialEq, Eq, Structural)]
pub enum Action {
    /// Nothing was asked for.
    Idle,
    /// Start the selected drill; `true` for free play.
    Start(bool),
    Restart,
    Resume,
    Library,
    Settings,
    History,
    Back,
    Quit,
}

/// The work an action leaves for the caller to do, besides the screen change.
#[derive(Clone, Copy, Debug, PartialEq, Eq, Structural)]
pub enum Effect {
    Nothing,
    /// Replace the session with a new one of the selected drill; `true` for
    /// free play.
    StartSession(bool),
    ResumeSession,
    PauseSession,
    SaveSettings,
}

/// The abstract navigation state.
pub struct NavState {
    pub screen: Screen,
    pub settings_return: Screen,
    pub recorded: bool,
}

/// Which screen shows, where the settings screen returns to, and whether the
/// current session's result has been recorded.
pub struct Nav {
    screen: Screen,
    settings_return: Screen,
    recorded: bool,
}

impl View for Nav {
    type V = NavState;

    closed spec fn view(&self) -> NavState {
        NavState {
            screen: self.screen,
            settings_return: self.settings_return,
            recorded: self.recorded,
        }
    }
}

/// The navigation state after an action.
pub open spec fn after_action(s: NavState, action: Action) -> NavState {
    match action {
        Action::Start(_) | Action::Restart => NavState {
            screen: Screen::Play,
            settings_return: s.settings_return,
            recorded: false,
        },
        Action::Resume => NavState { screen: Screen::Play, ..s },
        Action::Library => NavState { screen: Screen::Library, ..s },
        Action::Settings => NavState {
            screen: Screen::Settings,
            settings_return: s.screen,
            recorded: s.recorded,
        },
        Action::History => NavState { screen: Screen::History, ..s },
        Action::Back => NavState { screen: s.settings_return, ..s },
        Action::Idle | Action::Quit => s,
    }
}

/// The effect of an action; `free_play` is whether the current session is
/// free play, which a restart keeps.
pub open spec fn effect_of(action: Action, free_play: bool) -> Effect {
    match action {
        Action::Start(free) => Effect::StartSession(free),
        Action::Restart => Effect::StartSession(free_play),
        Action::Resume => Effect::ResumeSession,
        Action::Library | Action::Settings => Effect::PauseSession,
        Action::Back => Effect::SaveSettings,
        Action::History | Action::Idle | Action::Quit => Effect::Nothing,
    }
}

/// Whether the game takes input and time: a live session on the play screen.
pub open spec fn is_active(screen: Screen, phase: Phase) -> bool {
    screen == Screen::Play && is_live(phase)
}

impl Nav {
    /// The application opens on the library.
    pub fn new() -> (r: Nav)
        ensures
            r@ == (NavState {
                screen: Screen::Library,
                settings_return: Screen::Library,
                recorded: false,
            }),
    {
        Nav { screen: Screen::Library, settings_return: Screen::Library, recorded: false }
    }

    pub fn screen(&self) -> (r: Screen)
        ensures
            r == self@.screen,
    {
        self.screen
    }

    /// Applies an action and returns what the caller must do to the session
    /// or the stored settings.
    pub fn act(&mut self, action: Action, free_play: bool) -> (r: Effect)
        ensures
            final(self)@ == after_action(old(self)@, action),
            r == effect_of(action, free_play),
    {
        match action {
            Action::Start(free) => {
                self.recorded = false;
                self.screen = Screen::Play;
                Effect::StartSession(free)
            },
            Action::Restart => {
                self.recorded = false;
                self.screen = Screen::Play;
                Effect::StartSession(free_play)
            },
            Action::Resume => {
                self.screen = Screen::Play;
                Effect::ResumeSession
            },
            Action::Library => {
                self.screen = Screen::Library;
                Effect::PauseSession
            },
            Action::Settings => {
                self.settings_return = self.screen;
                self.screen = Screen::Settings;
                Effect::PauseSession
            },
            Action::History => {
                self.screen = Screen::History;
                Effect::Nothing
            },
            Action::Back => {
                self.screen = self.settings_return;
                Effect::SaveSettings
            },
            Action::Idle | Action::Quit => Effect::Nothing,
        }
    }

    /// Whether the game takes input and time this frame.
    pub fn is_active(&self, phase: Phase) -> (r: bool)
        ensures
            r == is_active(self@.screen, phase),
    {
        match self.screen {
            Screen::Play => match phase {
                Phase::Countdown | Phase::Running => true,
                _ => false,
            },
            _ => false,
        }
    }

    /// Whether to record the current session's result now, given whether it
    /// owes one; answers yes at most once per session.
    pub fn take_record(&mut self, owes_result: bool) -> (r: bool)
        ensures
            r == (owes_result && !old(self)@.recorded),
            final(self)@ == (NavState { recorded: old(self)@.recorded || r, ..old(self)@ }),
    {
        if !self.recorded && owes_result {
            self.recorded = true;
            true
        } else {
            false
        }
    }
}

/// Opening the settings and going back returns to the screen that was
/// showing, and the round trip leaves the rest of the state as it was.
pub proof fn lemma_settings_round_trip(s: NavState)
    ensures
        after_action(after_action(s, Action::Settings), Action::Back).screen == s.screen,
        after_action(after_action(s, Action::Settings), Action::Back).recorded == s.recorded,
        effect_of(Action::Back, true) == Effect::SaveSettings,
{
}

/// Starting, restarting and resuming all lead to the play screen; starting
/// anew clears the recorded mark; leaving the play screen for the library or
/// the settings pauses the session.
pub proof fn lemma_play_entries_and_exits(s: NavState, free: bool, free_play: bool)
    ensures
        after_action(s, Action::Start(free)).screen == Screen::Play,
        !after_action(s, Action::Start(free)).recorded,
        after_action(s, Action::Restart).screen == Screen::Play,
        effect_of(Action::Restart, free_play) == Effect::StartSession(free_play),
        after_action(s, Action::Resume).screen == Screen::Play,
        effect_of(Action::Library, free_play) == Effect::PauseSession,
        effect_of(Action::Settings, free_play) == Effect::PauseSession,
        !is_active(after_action(s, Action::Library).screen, Phase::Running),
        !is_active(after_action(s, Action::Settings).screen, Phase::Running),
{
}

/// Starting a session uses the mode that was asked for: a challenge or free
/// play, whatever the mode of the session that was running before; only a
/// restart keeps the current mode.
pub proof fn lemma_start_uses_requested_mode(s: NavState, free: bool, free_play: bool)
    ensures
        effect_of(Action::Start(free), free_play) == Effect::StartSession(free),
        effect_of(Action::Start(free), free_play) == effect_of(Action::Start(free), !free_play),
        effect_of(Action::Start(free), free_play) != Effect::StartSession(!free),
        effect_of(Action::Restart, free_play) == effect_of(Action::Start(free_play), !free_play),
        after_action(s, Action::Start(free)) == after_action(s, Action::Start(!free)),
{
}

/// A finished session's result is recorded once: after it has been taken,
/// it is not taken again until a new session starts.
pub proof fn lemma_record_once(s: NavState, owes: bool)
    ensures
        ({
            let taken = owes && !s.recorded;
            let next = NavState { recorded: s.recorded || taken, ..s };
            !(owes && !next.recorded)
        }),
{
}

/// The keys that steer the application, as pressed this frame.
#[derive(Clone, Copy, Debug, PartialEq, Eq, Structural)]
pub struct Keys {
    pub escape: bool,
    pub restart: bool,
    pub enter: bool,
    pub settings: bool,
}

/// What the keys ask for: whether to pause the session at once, and the
/// action to take. Later keys win: Escape, then R, then Enter, then F2.
pub open spec fn keys_outcome(screen: Screen, phase: Phase, keys: Keys) -> (bool, Action) {
    let pause = keys.escape && is_active(screen, phase);
    let a0 = if !keys.escape {
        Action::Idle
    } else {
        match screen {
            Screen::Play => if is_live(phase) {
                Action::Idle
            } else if phase == Phase::Paused {
                Action::Resume
            } else {
                Action::Library
            },
            Screen::Settings => Action::Back,
            Screen::History => Action::Library,
            Screen::Library => Action::Idle,
        }
    };
    let a1 = if keys.restart && screen == Screen::Play {
        Action::Restart
    } else {
        a0
    };
    let a2 = if keys.enter && screen == Screen::Library {
        Action::Start(false)
    } else {
        a1
    };
    let a3 = if keys.settings && screen != Screen::Settings {
        Action::Settings
    } else {
        a2
    };
    (pause, a3)
}

/// Reads the steering keys: Escape pauses a running session, resumes a
/// paused one, leaves a finished one and closes the other screens; R
/// restarts, Enter starts a challenge from the library and F2 opens the
/// settings.
pub fn keyboard_action(screen: Screen, phase: Phase, keys: Keys) -> (r: (bool, Action))
    ensures
        r == keys_outcome(screen, phase, keys),
{
    let live = match phase {
        Phase::Countdown | Phase::Running => true,
        _ => false,
    };
    let on_play = match screen {
        Screen::Play => true,
        _ => false,
    };
    let mut action = Action::Idle;
    if keys.escape {
        action = match screen {
            Screen::Play => if live {
                Action::Idle
            } else {
                match phase {
                    Phase::Paused => Action::Resume,
                    _ => Action::Library,
                }
            },
            Screen::Settings => Action::Back,
            Screen::History => Action::Library,
            Screen::Library => Action::Idle,
        };
    }
    if keys.restart && on_play {
        action = Action::Restart;
    }
    if keys.enter {
        match screen {
            Screen::Library => {
                action = Action::Start(false);
            },
            _ => {},
        }
    }
    if keys.settings {
        match screen {
            Screen::Settings => {},
            _ => {
                action = Action::Settings;
            },
        }
    }
    (keys.escape && on_play && live, action)
}

/// Escape toggles the pause of a session on the play screen: it pauses a
/// live one and resumes a paused one.
pub proof fn lemma_escape_toggles_pause(phase: Phase)
    ensures
        ({
            let keys = Keys { escape: true, restart: false, enter: false, settings: false };
            &&& is_live(phase) ==> keys_outcome(Screen::Play, phase, keys) == (true, Action::Idle)
            &&& phase == Phase::Paused ==> keys_outcome(Screen::Play, phase, keys) == (
                false,
                Action::Resume,
            )
            &&& phase == Phase::Finished ==> keys_outcome(Screen::Play, phase, keys) == (
                false,
                Action::Library,
            )
        }),
{
}

} // verus!

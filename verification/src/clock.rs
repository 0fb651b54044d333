use vstd::prelude::*;

verus! {

/// Where a practice session stands.
#[derive(Clone, Copy, Debug, PartialEq, Eq, Structural)]
pub enum Phase {
    Countdown,
    Running,
    Paused,
    Finished,
}

/// A phase in which time passes and input is taken.
pub open spec fn is_live(phase: Phase) -> bool {
    phase == Phase::Countdown || phase == Phase::Running
}

/// What a frame of `dt` seconds does to a session, decided before any time
/// is spent.
#[derive(Clone, Copy, Debug, PartialEq, Eq, Structural)]
pub enum TickPlan {
    /// The frame is dropped: no usable time, or the session is paused or over.
    Ignore,
    /// The frame was too long; the session paused itself instead.
    Stalled,
    /// The countdown consumes the frame.
    CountingDown,
    /// The drill runs for the frame.
    Playing,
}

/// The abstract state of a session clock.
pub struct ClockState {
    pub free_play: bool,
    pub phase: Phase,
    pub resume_phase: Phase,
}

/// The phase and pause bookkeeping of one session. Challenge sessions end
/// after their time limit; free play never ends.
pub struct Clock {
    free_play: bool,
    phase: Phase,
    resume_phase: Phase,
}

impl View for Clock {
    type V = ClockState;

    closed spec fn view(&self) -> ClockState {
        ClockState { free_play: self.free_play, phase: self.phase, resume_phase: self.resume_phase }
    }
}

/// The state after a pause request.
pub open spec fn paused(s: ClockState) -> ClockState {
    if is_live(s.phase) {
        ClockState { free_play: s.free_play, phase: Phase::Paused, resume_phase: s.phase }
    } else {
        s
    }
}

/// The state after a resume request.
pub open spec fn resumed(s: ClockState) -> ClockState {
    if s.phase == Phase::Paused {
        ClockState { free_play: s.free_play, phase: s.resume_phase, resume_phase: s.resume_phase }
    } else {
        s
    }
}

/// The plan for a frame, given whether its length is usable (finite and
/// positive) and whether it is a stall (over half a second).
pub open spec fn plan_for(s: ClockState, usable: bool, stalled: bool) -> TickPlan {
    if !usable || !is_live(s.phase) {
        TickPlan::Ignore
    } else if stalled {
        TickPlan::Stalled
    } else if s.phase == Phase::Countdown {
        TickPlan::CountingDown
    } else {
        TickPlan::Playing
    }
}

/// The state after a frame has been planned.
pub open spec fn after_plan(s: ClockState, usable: bool, stalled: bool) -> ClockState {
    if plan_for(s, usable, stalled) == TickPlan::Stalled {
        paused(s)
    } else {
        s
    }
}

/// The state once the time limit has been reached.
pub open spec fn after_time_up(s: ClockState) -> ClockState {
    if !s.free_play && s.phase == Phase::Running {
        ClockState { free_play: s.free_play, phase: Phase::Finished, resume_phase: s.resume_phase }
    } else {
        s
    }
}

/// Whether a finished result is owed for this state.
pub open spec fn owes_result(s: ClockState) -> bool {
    !s.free_play && s.phase == Phase::Finished
}

impl Clock {
    /// The clock keeps only live phases to come back to.
    pub closed spec fn wf(&self) -> bool {
        is_live(self.resume_phase)
    }

    /// A new session starts in its countdown.
    pub fn new(free_play: bool) -> (r: Clock)
        ensures
            r@ == (ClockState {
                free_play: free_play,
                phase: Phase::Countdown,
                resume_phase: Phase::Countdown,
            }),
            r.wf(),
    {
        Clock { free_play, phase: Phase::Countdown, resume_phase: Phase::Countdown }
    }

    pub fn free_play(&self) -> (r: bool)
        ensures
            r == self@.free_play,
    {
        self.free_play
    }

    pub fn phase(&self) -> (r: Phase)
        ensures
            r == self@.phase,
    {
        self.phase
    }

    pub fn is_live(&self) -> (r: bool)
        ensures
            r == is_live(self@.phase),
    {
        match self.phase {
            Phase::Countdown | Phase::Running => true,
            _ => false,
        }
    }

    /// Stops time: a live session remembers its phase and pauses; any other
    /// session is left as it is.
    pub fn pause(&mut self)
        requires
            old(self).wf(),
        ensures
            final(self)@ == paused(old(self)@),
            final(self).wf(),
    {
        if self.is_live() {
            self.resume_phase = self.phase;
            self.phase = Phase::Paused;
        }
    }

    /// Continues a paused session in the phase it was paused in.
    pub fn resume(&mut self)
        requires
            old(self).wf(),
        ensures
            final(self)@ == resumed(old(self)@),
            final(self).wf(),
    {
        if self.phase == Phase::Paused {
            self.phase = self.resume_phase;
        }
    }

    /// Decides what a frame does. `usable` is whether the frame length is
    /// finite and positive, `stalled` whether it is longer than half a
    /// second; a stalled frame pauses the session.
    pub fn begin_tick(&mut self, usable: bool, stalled: bool) -> (r: TickPlan)
        requires
            old(self).wf(),
        ensures
            r == plan_for(old(self)@, usable, stalled),
            final(self)@ == after_plan(old(self)@, usable, stalled),
            final(self).wf(),
    {
        if !usable || !self.is_live() {
            TickPlan::Ignore
        } else if stalled {
            self.pause();
            TickPlan::Stalled
        } else if self.phase == Phase::Countdown {
            TickPlan::CountingDown
        } else {
            TickPlan::Playing
        }
    }

    /// The countdown has run out: a counting-down session starts running.
    pub fn countdown_done(&mut self)
        requires
            old(self).wf(),
        ensures
            old(self)@.phase == Phase::Countdown ==> final(self)@ == (ClockState {
                phase: Phase::Running,
                ..old(self)@
            }),
            old(self)@.phase != Phase::Countdown ==> final(self)@ == old(self)@,
            final(self).wf(),
    {
        if self.phase == Phase::Countdown {
            self.phase = Phase::Running;
        }
    }

    /// The challenge time is used up: a running challenge finishes. Free play
    /// has no time limit and keeps running.
    pub fn time_up(&mut self)
        requires
            old(self).wf(),
        ensures
            final(self)@ == after_time_up(old(self)@),
            final(self).wf(),
    {
        if !self.free_play && self.phase == Phase::Running {
            self.phase = Phase::Finished;
        }
    }

    /// Whether the session has a result to report: a finished challenge.
    pub fn owes_result(&self) -> (r: bool)
        ensures
            r == owes_result(self@),
    {
        !self.free_play && self.phase == Phase::Finished
    }
}

/// Pausing and then resuming a live session puts it back in the phase it was
/// in.
pub proof fn lemma_pause_resume_round_trip(s: ClockState)
    requires
        is_live(s.phase),
    ensures
        resumed(paused(s)).phase == s.phase,
        resumed(paused(s)).free_play == s.free_play,
{
}

/// A second pause changes nothing, and neither does resuming a session that
/// is not paused.
pub proof fn lemma_pause_and_resume_idempotent(s: ClockState)
    ensures
        paused(paused(s)) == paused(s),
        resumed(resumed(s)) == resumed(s),
{
}

/// Time stops while paused: a paused or finished session ignores every frame
/// and is left unchanged by it.
pub proof fn lemma_stopped_sessions_ignore_frames(s: ClockState, usable: bool, stalled: bool)
    requires
        s.phase == Phase::Paused || s.phase == Phase::Finished,
    ensures
        plan_for(s, usable, stalled) == TickPlan::Ignore,
        after_plan(s, usable, stalled) == s,
{
}

/// A stall longer than half a second pauses a live session rather than
/// consuming its time.
pub proof fn lemma_stall_pauses(s: ClockState)
    requires
        is_live(s.phase),
    ensures
        plan_for(s, true, true) == TickPlan::Stalled,
        after_plan(s, true, true).phase == Phase::Paused,
        resumed(after_plan(s, true, true)).phase == s.phase,
{
}

/// Free play has no time limit and never owes a result.
pub proof fn lemma_free_play_never_finishes(s: ClockState)
    requires
        s.free_play,
        s.phase != Phase::Finished,
        is_live(s.resume_phase),
    ensures
        after_time_up(s) == s,
        paused(s).phase != Phase::Finished,
        resumed(s).phase != Phase::Finished,
        forall|usable: bool, stalled: bool| #[trigger]
            after_plan(s, usable, stalled).phase != Phase::Finished,
        !owes_result(s),
        !owes_result(after_time_up(s)),
{
}

/// A finished session stays finished: no pause, resume, frame or time limit
/// moves it.
pub proof fn lemma_finished_is_final(s: ClockState, usable: bool, stalled: bool)
    requires
        s.phase == Phase::Finished,
    ensures
        paused(s) == s,
        resumed(s) == s,
        after_plan(s, usable, stalled) == s,
        after_time_up(s) == s,
        owes_result(s) == !s.free_play,
{
}

/// Only a finished challenge owes a result: a session that is counting down,
/// running or paused owes none, and neither does free play; a challenge owes
/// one as soon as its time is up.
pub proof fn lemma_only_finished_challenges_owe(s: ClockState)
    ensures
        owes_result(s) ==> s.phase == Phase::Finished,
        owes_result(s) ==> !s.free_play,
        s.phase == Phase::Countdown || s.phase == Phase::Running || s.phase == Phase::Paused
            ==> !owes_result(s),
        !s.free_play && s.phase == Phase::Running ==> owes_result(after_time_up(s)),
        is_live(s.phase) ==> !owes_result(paused(s)),
        forall|usable: bool, stalled: bool| #[trigger]
            owes_result(after_plan(s, usable, stalled)) ==> owes_result(s),
{
}

/// The tally of a session: every hit is also a shot.
pub struct Tally {
    hits: u32,
    shots: u32,
}

impl Tally {
    /// Hits never exceed shots.
    pub closed spec fn wf(&self) -> bool {
        self.hits <= self.shots
    }

    pub closed spec fn spec_hits(&self) -> u32 {
        self.hits
    }

    pub closed spec fn spec_shots(&self) -> u32 {
        self.shots
    }

    pub fn new() -> (r: Tally)
        ensures
            r.spec_hits() == 0,
            r.spec_shots() == 0,
            r.wf(),
    {
        Tally { hits: 0, shots: 0 }
    }

    pub fn hits(&self) -> (r: u32)
        ensures
            r == self.spec_hits(),
    {
        self.hits
    }

    pub fn shots(&self) -> (r: u32)
        ensures
            r == self.spec_shots(),
    {
        self.shots
    }

    /// Counts one shot, and one hit when it landed.
    pub fn shot(&mut self, hit: bool)
        requires
            old(self).wf(),
            old(self).spec_shots() < u32::MAX,
        ensures
            final(self).wf(),
            final(self).spec_shots() == old(self).spec_shots() + 1,
            final(self).spec_hits() == old(self).spec_hits() + (if hit { 1int } else { 0int }),
    {
        self.shots = self.shots + 1;
        if hit {
            self.hits = self.hits + 1;
        }
    }
}

/// Hits never outnumber shots, whatever sequence of shots was counted.
pub proof fn lemma_hits_within_shots(t: Tally)
    requires
        t.wf(),
    ensures
        t.spec_hits() <= t.spec_shots(),
{
}

} // verus!

use vstd::prelude::*;

verus! {

/// The six built-in practice drills.
#[derive(Clone, Copy, Debug, PartialEq, Eq, Structural)]
pub enum Drill {
    Six,
    Frenzy,
    Micro,
    Smooth,
    Strafes,
    Switching,
}

/// How a drill is played and scored.
#[derive(Clone, Copy, Debug, PartialEq, Eq, Structural)]
pub enum Mode {
    Click,
    Track,
    Switch,
}

/// The scoring family of each drill.
pub open spec fn mode_of(drill: Drill) -> Mode {
    match drill {
        Drill::Six | Drill::Frenzy | Drill::Micro => Mode::Click,
        Drill::Smooth | Drill::Strafes => Mode::Track,
        Drill::Switching => Mode::Switch,
    }
}

/// Number of targets that a drill keeps on the wall at once.
pub open spec fn target_count(drill: Drill) -> nat {
    match drill {
        Drill::Six => 6,
        Drill::Frenzy => 3,
        Drill::Micro => 5,
        Drill::Smooth | Drill::Strafes => 1,
        Drill::Switching => 4,
    }
}

/// Position of a drill in the library order.
pub open spec fn drill_index(drill: Drill) -> int {
    match drill {
        Drill::Six => 0,
        Drill::Frenzy => 1,
        Drill::Micro => 2,
        Drill::Smooth => 3,
        Drill::Strafes => 4,
        Drill::Switching => 5,
    }
}

impl Drill {
    /// Every drill, in library order.
    pub const ALL: [Drill; 6] = [
        Drill::Six,
        Drill::Frenzy,
        Drill::Micro,
        Drill::Smooth,
        Drill::Strafes,
        Drill::Switching,
    ];

    pub fn name(self) -> (r: &'static str)
        ensures
            self == Drill::Six ==> r@ == "1wall 6targets"@,
            self == Drill::Frenzy ==> r@ == "Tile Frenzy"@,
            self == Drill::Micro ==> r@ == "Micro Precision"@,
            self == Drill::Smooth ==> r@ == "Smooth Tracking"@,
            self == Drill::Strafes ==> r@ == "Close Strafes"@,
            self == Drill::Switching ==> r@ == "Target Switching"@,
    {
        match self {
            Drill::Six => "1wall 6targets",
            Drill::Frenzy => "Tile Frenzy",
            Drill::Micro => "Micro Precision",
            Drill::Smooth => "Smooth Tracking",
            Drill::Strafes => "Close Strafes",
            Drill::Switching => "Target Switching",
        }
    }

    pub fn mode(self) -> (r: Mode)
        ensures
            r == mode_of(self),
    {
        match self {
            Drill::Six | Drill::Frenzy | Drill::Micro => Mode::Click,
            Drill::Smooth | Drill::Strafes => Mode::Track,
            Drill::Switching => Mode::Switch,
        }
    }

    pub fn category(self) -> (r: &'static str)
        ensures
            mode_of(self) == Mode::Click ==> r@ == "CLICKING"@,
            mode_of(self) == Mode::Track ==> r@ == "TRACKING"@,
            mode_of(self) == Mode::Switch ==> r@ == "SWITCHING"@,
    {
        match self.mode() {
            Mode::Click => "CLICKING",
            Mode::Track => "TRACKING",
            Mode::Switch => "SWITCHING",
        }
    }

    pub fn description(self) -> (r: &'static str)
        ensures
            self == Drill::Six ==> r@
                == "Six targets on one wall. Click each target once. Aim for clean stops and accurate flicks."@,
            self == Drill::Frenzy ==> r@
                == "Three large square targets. Move quickly from tile to tile. Keep your clicks under control."@,
            self == Drill::Micro ==> r@
                == "Five small targets in a narrow area. Make small corrections. Put accuracy before speed."@,
            self == Drill::Smooth ==> r@
                == "Hold fire and follow a moving sphere. Keep your crosshair on the target through long, smooth turns."@,
            self == Drill::Strafes ==> r@
                == "Hold fire on a close target. React to short, random changes in direction without moving too far."@,
            self == Drill::Switching ==> r@
                == "Hold fire and move between four targets. Clear each target with 0.3 seconds of accurate fire."@,
    {
        match self {
            Drill::Six => {
                "Six targets on one wall. Click each target once. Aim for clean stops and accurate flicks."
            },
            Drill::Frenzy => {
                "Three large square targets. Move quickly from tile to tile. Keep your clicks under control."
            },
            Drill::Micro => {
                "Five small targets in a narrow area. Make small corrections. Put accuracy before speed."
            },
            Drill::Smooth => {
                "Hold fire and follow a moving sphere. Keep your crosshair on the target through long, smooth turns."
            },
            Drill::Strafes => {
                "Hold fire on a close target. React to short, random changes in direction without moving too far."
            },
            Drill::Switching => {
                "Hold fire and move between four targets. Clear each target with 0.3 seconds of accurate fire."
            },
        }
    }

    pub fn count(self) -> (r: usize)
        ensures
            r == target_count(self),
            r >= 1,
    {
        match self {
            Drill::Six => 6,
            Drill::Frenzy => 3,
            Drill::Micro => 5,
            Drill::Smooth | Drill::Strafes => 1,
            Drill::Switching => 4,
        }
    }

    pub fn cue(self) -> (r: &'static str)
        ensures
            mode_of(self) == Mode::Click ==> r@ == "CLICK EACH TARGET"@,
            mode_of(self) == Mode::Track ==> r@ == "HOLD FIRE AND FOLLOW"@,
            mode_of(self) == Mode::Switch ==> r@ == "HOLD FIRE TO CLEAR TARGETS"@,
    {
        match self.mode() {
            Mode::Click => "CLICK EACH TARGET",
            Mode::Track => "HOLD FIRE AND FOLLOW",
            Mode::Switch => "HOLD FIRE TO CLEAR TARGETS",
        }
    }

    pub fn scoring(self) -> (r: &'static str)
        ensures
            mode_of(self) == Mode::Click ==> r@ == "Score = hits x 100 x accuracy"@,
            mode_of(self) == Mode::Track ==> r@ == "Score = seconds on target x 100"@,
            mode_of(self) == Mode::Switch ==> r@ == "Score = targets cleared x 100"@,
    {
        match self.mode() {
            Mode::Click => "Score = hits x 100 x accuracy",
            Mode::Track => "Score = seconds on target x 100",
            Mode::Switch => "Score = targets cleared x 100",
        }
    }
}

/// The library lists every drill exactly once, at its own index.
pub proof fn lemma_all_lists_each_drill_once(drill: Drill)
    ensures
        0 <= drill_index(drill) < 6,
        Drill::ALL@[drill_index(drill)] == drill,
        forall|i: int, j: int| 0 <= i < j < 6 ==> Drill::ALL@[i] != Drill::ALL@[j],
{
}

/// Mouse sensitivity conventions of other games.
#[derive(Clone, Copy, Debug, PartialEq, Eq, Structural)]
pub enum SensScale {
    Source,
    Valorant,
    Overwatch,
    MarvelRivals,
}

/// The scale that follows `scale` when the user cycles through them.
pub open spec fn next_scale(scale: SensScale) -> SensScale {
    match scale {
        SensScale::Source => SensScale::Valorant,
        SensScale::Valorant => SensScale::Overwatch,
        SensScale::Overwatch => SensScale::MarvelRivals,
        SensScale::MarvelRivals => SensScale::Source,
    }
}

impl Default for SensScale {
    fn default() -> (r: SensScale)
        ensures
            r == SensScale::Source,
    {
        SensScale::Source
    }
}

impl SensScale {
    pub fn name(self) -> (r: &'static str)
        ensures
            self == SensScale::Source ==> r@ == "Source / Quake"@,
            self == SensScale::Valorant ==> r@ == "Valorant"@,
            self == SensScale::Overwatch ==> r@ == "Overwatch"@,
            self == SensScale::MarvelRivals ==> r@ == "Marvel Rivals"@,
    {
        match self {
            SensScale::Source => "Source / Quake",
            SensScale::Valorant => "Valorant",
            SensScale::Overwatch => "Overwatch",
            SensScale::MarvelRivals => "Marvel Rivals",
        }
    }

    pub fn next(self) -> (r: SensScale)
        ensures
            r == next_scale(self),
    {
        match self {
            SensScale::Source => SensScale::Valorant,
            SensScale::Valorant => SensScale::Overwatch,
            SensScale::Overwatch => SensScale::MarvelRivals,
            SensScale::MarvelRivals => SensScale::Source,
        }
    }
}

/// Cycling through the scales visits all four and comes back: four steps
/// return to the start, and no fewer steps do.
pub proof fn lemma_scale_cycle(scale: SensScale)
    ensures
        next_scale(next_scale(next_scale(next_scale(scale)))) == scale,
        next_scale(scale) != scale,
        next_scale(next_scale(scale)) != scale,
        next_scale(next_scale(next_scale(scale))) != scale,
{
}

/// The library list's filter tabs.
#[derive(Clone, Copy, Debug, PartialEq, Eq, Structural)]
pub enum Filter {
    All,
    Clicking,
    Tracking,
    Switching,
}

/// Whether a filter tab shows a drill.
pub open spec fn filter_accepts(filter: Filter, drill: Drill) -> bool {
    match filter {
        Filter::All => true,
        Filter::Clicking => mode_of(drill) == Mode::Click,
        Filter::Tracking => mode_of(drill) == Mode::Track,
        Filter::Switching => mode_of(drill) == Mode::Switch,
    }
}

impl Filter {
    pub fn accepts(self, drill: Drill) -> (r: bool)
        ensures
            r == filter_accepts(self, drill),
    {
        match self {
            Filter::All => true,
            Filter::Clicking => match drill.mode() {
                Mode::Click => true,
                _ => false,
            },
            Filter::Tracking => match drill.mode() {
                Mode::Track => true,
                _ => false,
            },
            Filter::Switching => match drill.mode() {
                Mode::Switch => true,
                _ => false,
            },
        }
    }
}

/// "All" shows every drill, and every drill appears under exactly one of the
/// three family tabs.
pub proof fn lemma_filters_partition(drill: Drill)
    ensures
        filter_accepts(Filter::All, drill),
        filter_accepts(Filter::Clicking, drill) || filter_accepts(Filter::Tracking, drill)
            || filter_accepts(Filter::Switching, drill),
        !(filter_accepts(Filter::Clicking, drill) && filter_accepts(Filter::Tracking, drill)),
        !(filter_accepts(Filter::Clicking, drill) && filter_accepts(Filter::Switching, drill)),
        !(filter_accepts(Filter::Tracking, drill) && filter_accepts(Filter::Switching, drill)),
{
}

} // verus!

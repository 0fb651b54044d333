use vstd::prelude::*;

verus! {

/// Number of target colours the user can choose from.
pub const TARGET_COLOR_COUNT: usize = 5;

/// Number of crosshair colours the user can choose from.
pub const CROSSHAIR_COLOR_COUNT: usize = 4;

/// Frame limit used when a stored one is not offered.
pub const DEFAULT_FPS_LIMIT: u32 = 360;

/// The frame limits on offer; zero means unlimited.
pub open spec fn offered_fps_limit(fps: u32) -> bool {
    fps == 0 || fps == 144 || fps == 240 || fps == 360 || fps == 500
}

/// A stored colour index among `count` colours, or the first colour when it
/// is out of range.
pub open spec fn color_or_first(index: usize, count: usize) -> usize {
    if index < count {
        index
    } else {
        0
    }
}

/// A stored frame limit when it is on offer, else the default.
pub open spec fn fps_or_default(fps: u32) -> u32 {
    if offered_fps_limit(fps) {
        fps
    } else {
        DEFAULT_FPS_LIMIT
    }
}

/// The frame limit the settings button switches to.
pub open spec fn following_fps_limit(fps: u32) -> u32 {
    if fps == 144 {
        240
    } else if fps == 240 {
        360
    } else if fps == 360 {
        500
    } else if fps == 500 {
        0
    } else {
        144
    }
}

/// A stored target colour index, or the first colour when it is out of range.
pub fn target_color_or_default(index: usize) -> (r: usize)
    ensures
        r == color_or_first(index, TARGET_COLOR_COUNT),
        r < TARGET_COLOR_COUNT,
{
    if index > 4 {
        0
    } else {
        index
    }
}

/// A stored crosshair colour index, or the first colour when it is out of
/// range.
pub fn crosshair_color_or_default(index: usize) -> (r: usize)
    ensures
        r == color_or_first(index, CROSSHAIR_COLOR_COUNT),
        r < CROSSHAIR_COLOR_COUNT,
{
    if index > 3 {
        0
    } else {
        index
    }
}

/// A stored frame limit when it is one on offer, else the default.
pub fn fps_limit_or_default(fps: u32) -> (r: u32)
    ensures
        r == fps_or_default(fps),
        offered_fps_limit(r),
{
    if fps == 0 || fps == 144 || fps == 240 || fps == 360 || fps == 500 {
        fps
    } else {
        360
    }
}

/// The frame limit after pressing the frame-limit button once.
pub fn next_fps_limit(fps: u32) -> (r: u32)
    ensures
        r == following_fps_limit(fps),
        offered_fps_limit(r),
{
    match fps {
        144 => 240,
        240 => 360,
        360 => 500,
        500 => 0,
        _ => 144,
    }
}

/// Validation keeps a valid choice and makes an invalid one valid, so a
/// second validation changes nothing.
pub proof fn lemma_choice_validation_idempotent(target: usize, crosshair: usize, fps: u32)
    ensures
        color_or_first(color_or_first(target, TARGET_COLOR_COUNT), TARGET_COLOR_COUNT)
            == color_or_first(target, TARGET_COLOR_COUNT),
        color_or_first(color_or_first(crosshair, CROSSHAIR_COLOR_COUNT), CROSSHAIR_COLOR_COUNT)
            == color_or_first(crosshair, CROSSHAIR_COLOR_COUNT),
        fps_or_default(fps_or_default(fps)) == fps_or_default(fps),
        offered_fps_limit(fps_or_default(fps)),
{
}

/// Every offered frame limit (unlimited, 144, 240, 360 and 500) is kept as
/// it is, and any other stored limit becomes the default 360.
pub proof fn lemma_offered_limits_are_kept(fps: u32)
    ensures
        fps == 0 || fps == 144 || fps == 240 || fps == 360 || fps == 500 ==> fps_or_default(fps)
            == fps,
        !(fps == 0 || fps == 144 || fps == 240 || fps == 360 || fps == 500) ==> fps_or_default(fps)
            == 360,
        fps_or_default(fps) == fps || fps_or_default(fps) == 360,
{
}

/// Pressing the frame-limit button five times from an offered limit returns
/// to it, visiting every offered limit on the way.
pub proof fn lemma_fps_button_cycles(fps: u32)
    requires
        offered_fps_limit(fps),
    ensures
        following_fps_limit(
            following_fps_limit(
                following_fps_limit(following_fps_limit(following_fps_limit(fps))),
            ),
        ) == fps,
        offered_fps_limit(following_fps_limit(fps)),
        following_fps_limit(fps) != fps,
{
}

} // verus!

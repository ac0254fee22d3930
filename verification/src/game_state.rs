use vstd::prelude::*;
use crate::director::Director;
use crate::tutorial::TutorialManager;

verus! {

/// Whether the gameplay runs this frame: not while a tutorial hint is on
/// screen, unless the game is between waves.
pub fn gameplay_runs(tutorial: &TutorialManager, director: &Director) -> (r: bool)
    ensures
        r == (!tutorial.active() || director.state() == crate::director::DirectorState::WaitingForMenu),
{
    !tutorial.is_active() || director.is_between_waves()
}

/// A third of `x`, rounded toward zero.
pub open spec fn truncated_third(x: int) -> int {
    if x >= 0 {
        x / 3
    } else {
        -((-x) / 3)
    }
}

/// The quick-start settings kept after a game that reached `wave` with
/// `score`: when half the wave reached is beyond the kept starting wave,
/// the next quick start begins there, with a third of the score as gold.
pub fn quick_start_update(starting_wave: u32, starting_gold: i32, wave: u32, score: i32) -> (r: (u32, i32))
    ensures
        starting_wave < wave / 2 ==> r.0 == wave / 2 && r.1 as int == truncated_third(score as int),
        starting_wave >= wave / 2 ==> r == (starting_wave, starting_gold),
{
    if starting_wave < wave / 2 {
        (wave / 2, score / 3)
    } else {
        (starting_wave, starting_gold)
    }
}

} // verus!

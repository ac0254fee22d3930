use vstd::prelude::*;
use crate::tutorial::{TutorialManager, is_full_tutorial};

verus! {

/// The game's options.
#[derive(Clone, Copy, Debug, PartialEq, Eq, Structural)]
pub struct OptionsConfig {
    /// The volume of sound effects.
    pub volume: u8,
    /// The volume of the music.
    pub music_volume: u8,
    /// Whether to show tutorial hints.
    pub tutorial: bool,
}

impl Default for OptionsConfig {
    fn default() -> (r: Self)
        ensures
            r == (OptionsConfig { volume: 50, music_volume: 50, tutorial: true }),
    {
        OptionsConfig { volume: 50, music_volume: 50, tutorial: true }
    }
}

/// The tutorial a new game starts with: the game's hints when the options
/// ask for them (and then the options to save, which no longer ask for
/// them, so the hints are shown only once), no hints otherwise.
pub fn init_tutorial(options: &OptionsConfig) -> (r: (TutorialManager, Option<OptionsConfig>))
    ensures
        options.tutorial ==> is_full_tutorial(r.0.hints()) && r.1 == Some(OptionsConfig { tutorial: false, ..*options }),
        !options.tutorial ==> r.0.hints().len() == 0 && r.1 is None,
        !r.0.active(),
{
    if options.tutorial {
        (TutorialManager::new(), Some(OptionsConfig { tutorial: false, ..*options }))
    } else {
        (TutorialManager::new_empty(), None)
    }
}

} // verus!

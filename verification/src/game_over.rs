//! The end of a run: the high score, and the return of every setting to
//! its start.

use crate::enemy::Difficulty;
use crate::player::Barrel;
use crate::resources::Coins;
use crate::skill_tree::Upgrades;
use crate::weapon::Weapon;
use vstd::prelude::*;

verus! {

/// What the end of a run makes of the high score.
#[derive(Clone, Copy, Debug, PartialEq, Eq, Structural)]
pub struct HighScore {
    /// The high score after this run.
    pub value: u32,
    /// Whether the high score has to be stored: none was stored before, or
    /// this run beat it.
    pub write: bool,
}

/// The high score after a run that ended with `coins`, given the high score
/// stored before it, if any: the larger of the two, to be stored where it is
/// new.
pub open spec fn scored(stored: Option<u32>, coins: Coins) -> HighScore {
    match stored {
        Some(best) => if coins.0 > best {
            HighScore { value: coins.0, write: true }
        } else {
            HighScore { value: best, write: false }
        },
        None => HighScore { value: coins.0, write: true },
    }
}

/// Computes [`scored`].
pub fn high_score(stored: Option<u32>, coins: &Coins) -> (score: HighScore)
    ensures
        score == scored(stored, *coins),
        score.value >= coins.0,
        stored matches Some(best) ==> score.value >= best,
{
    match stored {
        Some(best) => if coins.0 > best {
            HighScore { value: coins.0, write: true }
        } else {
            HighScore { value: best, write: false }
        },
        None => HighScore { value: coins.0, write: true },
    }
}

/// Puts the purse, the weapon, the barrel, the difficulty and the purchases
/// back to the start of a run. The configuration of the difficulty stays.
pub fn reset_stats(
    coins: &mut Coins,
    weapon: &mut Weapon,
    barrel: &mut Barrel,
    difficulty: &mut Difficulty,
    upgrades: &mut Upgrades,
)
    ensures
        *final(coins) == Coins(0),
        *final(weapon) == Weapon::initial(),
        *final(barrel) == Barrel::idle(),
        *final(difficulty) == Difficulty::initial(old(difficulty).config),
        final(upgrades)@ == Set::<u64>::empty(),
        final(weapon).wf(),
        old(difficulty).config.wf() ==> final(difficulty).wf(),
{
    *coins = Coins::default();
    *weapon = Weapon::default();
    *barrel = Barrel::new();
    difficulty.reset();
    *upgrades = Upgrades::default();
}

} // verus!

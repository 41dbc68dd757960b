//! The counters of a game: journeys completed and attempts left.

use vstd::prelude::*;

verus! {

/// Attempts the player has at the start of a game.
pub const NB_ATTEMPTS: u32 = 20;

/// The counters of a game.
#[derive(Debug, Clone, Copy, PartialEq, Eq, Structural)]
pub struct Score {
    /// Journeys completed since the game started.
    pub nb_journeys: u32,
    /// Times the player can still be destroyed before the game ends.
    pub remaining_attempts: u32,
}

impl Score {
    /// The counters at the start of a game.
    pub open spec fn initial() -> Score {
        Score { nb_journeys: 0, remaining_attempts: NB_ATTEMPTS }
    }

    /// The counters after one more completed journey. The count stops at the
    /// largest number it can hold.
    pub open spec fn with_journey(self) -> Score {
        Score {
            nb_journeys: if self.nb_journeys < u32::MAX {
                (self.nb_journeys + 1) as u32
            } else {
                self.nb_journeys
            },
            ..self
        }
    }

    /// The counters after the player has been destroyed once more.
    pub open spec fn with_loss(self) -> Score {
        Score {
            remaining_attempts: if self.remaining_attempts > 0 {
                (self.remaining_attempts - 1) as u32
            } else {
                0
            },
            ..self
        }
    }

    /// No attempt is left.
    pub open spec fn exhausted(self) -> bool {
        self.remaining_attempts == 0
    }

    /// Takes one attempt away, and says whether none is left now.
    pub fn lose_attempt(&mut self) -> (exhausted: bool)
        ensures
            *final(self) == old(self).with_loss(),
            exhausted == final(self).exhausted(),
    {
        if self.remaining_attempts > 0 {
            self.remaining_attempts = self.remaining_attempts - 1;
        }
        self.remaining_attempts == 0
    }
}

impl Default for Score {
    fn default() -> (score: Score)
        ensures
            score == Score::initial(),
    {
        Score { nb_journeys: 0, remaining_attempts: NB_ATTEMPTS }
    }
}

/// Counts one more completed journey.
pub fn score_nb_journeys(score: &mut Score)
    ensures
        *final(score) == old(score).with_journey(),
        final(score).nb_journeys >= old(score).nb_journeys,
{
    if score.nb_journeys < u32::MAX {
        score.nb_journeys = score.nb_journeys + 1;
    }
}

} // verus!

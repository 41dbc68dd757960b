//! The hint that leads the first player of a game through its journey.

use vstd::prelude::*;

use crate::components::{Journey, JourneyView, Position};
use crate::inputs::{journey_finished, spec_journey_finished};

verus! {

/// What is to be done with the hint.
#[derive(Debug, Clone, Copy, PartialEq, Eq, Structural)]
pub enum TutorialStep {
    /// Nothing: the hint stays as it is.
    Keep,
    /// The player is on its target: the hint moves to the start of the
    /// journey and sends the player back.
    GoBack,
    /// The journey is complete: the hint goes away.
    Dismiss,
}

/// What is to be done with the hint for a player on `pos`.
pub open spec fn spec_validate_first_tutorial(journey: JourneyView, pos: Position) -> TutorialStep {
    if spec_journey_finished(journey, pos) {
        TutorialStep::Dismiss
    } else if pos == journey.target_pos {
        TutorialStep::GoBack
    } else {
        TutorialStep::Keep
    }
}

/// What is to be done with the hint for the first player of the game, which
/// stands on `pos`.
pub fn validate_first_tutorial(journey: &Journey, pos: &Position) -> (step: TutorialStep)
    ensures
        step == spec_validate_first_tutorial(journey@, *pos),
{
    if journey_finished(journey, pos) {
        TutorialStep::Dismiss
    } else if *pos == journey.target_pos {
        TutorialStep::GoBack
    } else {
        TutorialStep::Keep
    }
}

} // verus!

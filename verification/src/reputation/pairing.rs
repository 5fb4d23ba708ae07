//! Pairs of ratings that the two parties of an interaction give each other.
//!
//! An interaction has two slots, one for the student's rating of the tutor
//! and one for the tutor's rating of the student. Each slot is filled once.

use super::ledger::Ledger;
use super::ledger::RatingPair;
use super::pallet::Pallet;
use super::types::Error;
use super::types::Event;
use super::types::InteractionId;
use super::types::RatingId;
use super::types::RatingType;
use vstd::prelude::*;

verus! {

/// The pair once rating `id` of the given direction is recorded in it, or
/// why it cannot be recorded: its slot is taken, or the direction is none
/// of the two that an interaction has.
pub open spec fn pair_after(pair: RatingPair, direction: RatingType, id: RatingId) -> Result<
    RatingPair,
    Error,
> {
    match direction {
        RatingType::StudentToTutor => if pair.0 is Some {
            Err(Error::BidirectionalRatingExists)
        } else {
            Ok((Some(id), pair.1))
        },
        RatingType::TutorToStudent => if pair.1 is Some {
            Err(Error::BidirectionalRatingExists)
        } else {
            Ok((pair.0, Some(id)))
        },
        _ => Err(Error::InvalidRatingType),
    }
}

/// The event that tells of a pair with both slots filled; nothing while a
/// slot is empty.
pub open spec fn completion_events(interaction: InteractionId, pair: RatingPair) -> Seq<Event> {
    match pair {
        (Some(student_rating), Some(tutor_rating)) => seq![
            Event::BidirectionalRatingCompleted {
                interaction_id: interaction,
                student_rating,
                tutor_rating,
            },
        ],
        _ => Seq::empty(),
    }
}

/// Records rating `rating_id` in the slot of its direction.
pub fn record_in_pair(
    pair: (Option<RatingId>, Option<RatingId>),
    rating_id: RatingId,
    rating_type: &RatingType,
) -> (r: Result<(Option<RatingId>, Option<RatingId>), Error>)
    ensures
        r == pair_after(pair, *rating_type, rating_id),
{
    match rating_type {
        RatingType::StudentToTutor => {
            if pair.0.is_some() {
                Err(Error::BidirectionalRatingExists)
            } else {
                Ok((Some(rating_id), pair.1))
            }
        },
        RatingType::TutorToStudent => {
            if pair.1.is_some() {
                Err(Error::BidirectionalRatingExists)
            } else {
                Ok((pair.0, Some(rating_id)))
            }
        },
        _ => Err(Error::InvalidRatingType),
    }
}

impl Pallet {
    /// Records rating `rating_id` in the pair of the interaction, and tells
    /// when the pair is complete. A rating whose slot is taken, or whose
    /// kind has no slot, is refused.
    pub(super) fn handle_bidirectional_rating(
        &mut self,
        interaction_id: InteractionId,
        rating_id: RatingId,
        rating_type: &RatingType,
    ) -> (r: Result<Vec<Event>, Error>)
        ensures
            match r {
                Ok(events) => {
                    let next = pair_after(
                        old(self)@.pair(interaction_id),
                        *rating_type,
                        rating_id,
                    );
                    &&& next is Ok
                    &&& final(self)@ == (Ledger {
                        rating_pairs: old(self)@.rating_pairs.insert(interaction_id, next->Ok_0),
                        ..old(self)@
                    })
                    &&& events@ == completion_events(interaction_id, next->Ok_0)
                },
                Err(e) => {
                    &&& pair_after(old(self)@.pair(interaction_id), *rating_type, rating_id)
                        == Err::<RatingPair, Error>(e)
                    &&& final(self)@ == old(self)@
                },
            },
    {
        let rating_pair = self.rating_pairs(interaction_id);
        let rating_pair = match record_in_pair(rating_pair, rating_id, rating_type) {
            Ok(pair) => pair,
            Err(e) => {
                return Err(e);
            },
        };
        self.put_pair(interaction_id, rating_pair);
        let mut events: Vec<Event> = Vec::new();
        if let (Some(student_rating), Some(tutor_rating)) = rating_pair {
            events.push(
                Event::BidirectionalRatingCompleted {
                    interaction_id,
                    student_rating,
                    tutor_rating,
                },
            );
        }
        Ok(events)
    }
}

} // verus!

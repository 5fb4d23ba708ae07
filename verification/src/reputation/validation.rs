//! What a rating must satisfy before the ledger takes it.

use super::pallet::Pallet;
use super::types::Error;
use super::types::MAX_COMMENT_LENGTH;
use super::types::MAX_RATING_SCORE;
use super::types::MIN_RATING_SCORE;
use super::types::RatingAspects;
use super::types::RatingView;
use vstd::prelude::*;

verus! {

/// Whether `score` is one of 1, 2, 3, 4, 5.
pub open spec fn score_in_range(score: u8) -> bool {
    MIN_RATING_SCORE <= score <= MAX_RATING_SCORE
}

/// Whether an aspect was left out or scored from 1 to 5.
pub open spec fn aspect_in_range(aspect: Option<u8>) -> bool {
    match aspect {
        Some(score) => score_in_range(score),
        None => true,
    }
}

impl RatingAspects {
    /// Whether every aspect that is present lies between 1 and 5.
    pub open spec fn valid(self) -> bool {
        &&& aspect_in_range(self.communication)
        &&& aspect_in_range(self.knowledge)
        &&& aspect_in_range(self.punctuality)
        &&& aspect_in_range(self.engagement)
        &&& aspect_in_range(self.helpfulness)
    }
}

/// Whether the aspects, where given, are valid.
pub open spec fn aspects_acceptable(aspects: Option<RatingAspects>) -> bool {
    match aspects {
        Some(given) => given.valid(),
        None => true,
    }
}

impl RatingView {
    /// What holds of every rating the ledger stores.
    pub open spec fn valid(self) -> bool {
        &&& self.rater != self.rated
        &&& score_in_range(self.score)
        &&& aspects_acceptable(self.aspects)
        &&& self.comment.len() <= MAX_COMMENT_LENGTH
    }
}

/// Whether `score` is one of 1, 2, 3, 4, 5.
pub fn is_valid_score(score: u8) -> (ok: bool)
    ensures
        ok == score_in_range(score),
{
    score >= MIN_RATING_SCORE && score <= MAX_RATING_SCORE
}

fn is_valid_aspect(aspect: Option<u8>) -> (ok: bool)
    ensures
        ok == aspect_in_range(aspect),
{
    match aspect {
        Some(score) => is_valid_score(score),
        None => true,
    }
}

impl Pallet {
    /// Accepts the aspects when each one that is present lies between 1 and
    /// 5, and refuses them with `InvalidAspectScore` otherwise.
    pub fn validate_aspects(aspects: &RatingAspects) -> (r: Result<(), Error>)
        ensures
            r is Ok <==> aspects.valid(),
            r matches Err(e) ==> e == Error::InvalidAspectScore,
    {
        if is_valid_aspect(aspects.communication) && is_valid_aspect(aspects.knowledge)
            && is_valid_aspect(aspects.punctuality) && is_valid_aspect(aspects.engagement)
            && is_valid_aspect(aspects.helpfulness) {
            Ok(())
        } else {
            Err(Error::InvalidAspectScore)
        }
    }
}

} // verus!

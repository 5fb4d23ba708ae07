//! Updating a rating.

use super::aggregate::recalculation_keeps_wf;
use super::bounded::comment_from_vec;
use super::ledger::content_change_keeps_wf;
use super::ledger::Ledger;
use super::ledger::precedes_is_reflexive;
use super::ledger::precedes_is_transitive;
use super::pallet::Pallet;
use super::types::AccountId;
use super::types::BlockNumber;
use super::types::Error;
use super::types::Event;
use super::types::GroupActivityId;
use super::types::InteractionId;
use super::types::MAX_COMMENT_LENGTH;
use super::types::RatingAspects;
use super::types::RatingId;
use super::types::RatingView;
use super::validation::aspects_acceptable;
use super::validation::is_valid_score;
use super::validation::score_in_range;
use frame_support::BoundedVec;
use frame_support::traits::ConstU32;
use vstd::prelude::*;

verus! {

/// The bytes of a comment that may be absent.
pub open spec fn bytes_of(comment: Option<Vec<u8>>) -> Option<Seq<u8>> {
    match comment {
        Some(text) => Some(text@),
        None => None,
    }
}

impl RatingView {
    /// The rating with a new score, and with a new comment and new aspects
    /// where they are given; what is not given stays.
    pub open spec fn revised(
        self,
        new_score: u8,
        new_comment: Option<Seq<u8>>,
        new_aspects: Option<RatingAspects>,
    ) -> RatingView {
        RatingView {
            score: new_score,
            comment: match new_comment {
                Some(text) => text,
                None => self.comment,
            },
            aspects: if new_aspects is Some {
                new_aspects
            } else {
                self.aspects
            },
            ..self
        }
    }
}

impl Ledger {
    /// Why the ledger refuses an update by `who` at block `now`, or `None`
    /// when it takes it. The first reason that applies is given.
    pub open spec fn update_refusal(
        self,
        who: AccountId,
        now: BlockNumber,
        rating_id: RatingId,
        new_score: u8,
        new_comment: Option<Seq<u8>>,
        new_aspects: Option<RatingAspects>,
    ) -> Option<Error> {
        if !score_in_range(new_score) {
            Some(Error::InvalidRatingScore)
        } else if !aspects_acceptable(new_aspects) {
            Some(Error::InvalidAspectScore)
        } else if !self.ratings.contains_key(rating_id) {
            Some(Error::RatingNotFound)
        } else if self.ratings[rating_id].rater != who {
            Some(Error::NotAuthorized)
        } else if !self.ratings[rating_id].counts(now) {
            Some(Error::RatingExpired)
        } else if new_comment matches Some(text) && text.len() > MAX_COMMENT_LENGTH {
            Some(Error::CommentTooLong)
        } else {
            None
        }
    }

    /// The ledger with rating `rating_id` revised, before anything is
    /// recalculated.
    pub open spec fn with_revision(
        self,
        rating_id: RatingId,
        new_score: u8,
        new_comment: Option<Seq<u8>>,
        new_aspects: Option<RatingAspects>,
    ) -> Ledger {
        Ledger {
            ratings: self.ratings.insert(
                rating_id,
                self.ratings[rating_id].revised(new_score, new_comment, new_aspects),
            ),
            ..self
        }
    }

    /// The ledger after an update at block `now`: the rating revised, and
    /// the reputation of the rated account recalculated.
    pub open spec fn updated(
        self,
        now: BlockNumber,
        rating_id: RatingId,
        new_score: u8,
        new_comment: Option<Seq<u8>>,
        new_aspects: Option<RatingAspects>,
    ) -> Ledger {
        self.with_revision(rating_id, new_score, new_comment, new_aspects).recalculated(
            self.ratings[rating_id].rated,
            now,
        )
    }

    /// The events of an update: the recalculation of the rated account,
    /// then the update itself.
    pub open spec fn update_events(
        self,
        now: BlockNumber,
        rating_id: RatingId,
        new_score: u8,
        new_comment: Option<Seq<u8>>,
        new_aspects: Option<RatingAspects>,
    ) -> Seq<Event> {
        self.with_revision(rating_id, new_score, new_comment, new_aspects).recalculation_events(
            self.ratings[rating_id].rated,
            now,
        ).push(Event::RatingUpdated { rating_id, new_score })
    }
}

impl Pallet {
    /// Gives rating `rating_id` a new score, and a new comment and new
    /// aspects where they are given. Only the rater may do so, and only
    /// while the rating counts. Nothing changes when it is refused.
    pub fn update_rating(
        &mut self,
        who: AccountId,
        now: BlockNumber,
        rating_id: RatingId,
        new_score: u8,
        new_comment: Option<Vec<u8>>,
        new_aspects: Option<RatingAspects>,
    ) -> (r: Result<Vec<Event>, Error>)
        requires
            old(self).wf(),
        ensures
            final(self).wf(),
            old(self)@.precedes(final(self)@),
            match r {
                Ok(events) => {
                    &&& old(self)@.update_refusal(
                        who,
                        now,
                        rating_id,
                        new_score,
                        bytes_of(new_comment),
                        new_aspects,
                    ) is None
                    &&& final(self)@ == old(self)@.updated(
                        now,
                        rating_id,
                        new_score,
                        bytes_of(new_comment),
                        new_aspects,
                    )
                    &&& events@ == old(self)@.update_events(
                        now,
                        rating_id,
                        new_score,
                        bytes_of(new_comment),
                        new_aspects,
                    )
                },
                Err(e) => {
                    &&& old(self)@.update_refusal(
                        who,
                        now,
                        rating_id,
                        new_score,
                        bytes_of(new_comment),
                        new_aspects,
                    ) == Some(e)
                    &&& final(self)@ == old(self)@
                },
            },
    {
        let ghost before = self@;
        proof {
            precedes_is_reflexive(before);
        }
        if !is_valid_score(new_score) {
            return Err(Error::InvalidRatingScore);
        }
        if let Some(given) = new_aspects {
            if Self::validate_aspects(&given).is_err() {
                return Err(Error::InvalidAspectScore);
            }
        }
        let (rater, rated, is_active, expires_at) = match self.ratings(rating_id) {
            Some(rating) => (rating.rater, rating.rated, rating.is_active, rating.expires_at),
            None => {
                return Err(Error::RatingNotFound);
            },
        };
        if rater != who {
            return Err(Error::NotAuthorized);
        }
        if !is_active {
            return Err(Error::RatingExpired);
        }
        if now >= expires_at {
            return Err(Error::RatingExpired);
        }
        let bounded_comment: Option<BoundedVec<u8, ConstU32<MAX_COMMENT_LENGTH>>> =
            match new_comment {
            Some(comment) => match comment_from_vec(comment) {
                Ok(text) => Some(text),
                Err(_) => {
                    return Err(Error::CommentTooLong);
                },
            },
            None => None,
        };
        self.revise_rating(rating_id, new_score, bounded_comment, new_aspects);
        proof {
            let revised = before.with_revision(
                rating_id,
                new_score,
                bytes_of(new_comment),
                new_aspects,
            );
            assert(self@ == revised);
            revision_keeps_wf(before, rating_id, new_score, bytes_of(new_comment), new_aspects);
            recalculation_keeps_wf(revised, rated, now);
            precedes_is_transitive(before, revised, revised.recalculated(rated, now));
        }
        let mut events = self.recalculate_reputation(rated, now);
        events.push(Event::RatingUpdated { rating_id, new_score });
        Ok(events)
    }
}

/// A ledger in which a rating is revised stays well formed, and keeps all
/// it had.
pub proof fn revision_keeps_wf(
    ledger: Ledger,
    rating_id: RatingId,
    new_score: u8,
    new_comment: Option<Seq<u8>>,
    new_aspects: Option<RatingAspects>,
)
    requires
        ledger.wf(),
        ledger.ratings.contains_key(rating_id),
        score_in_range(new_score),
        aspects_acceptable(new_aspects),
        new_comment matches Some(text) ==> text.len() <= MAX_COMMENT_LENGTH,
    ensures
        ledger.with_revision(rating_id, new_score, new_comment, new_aspects).wf(),
        ledger.precedes(ledger.with_revision(rating_id, new_score, new_comment, new_aspects)),
{
    let after = ledger.with_revision(rating_id, new_score, new_comment, new_aspects);
    content_change_keeps_wf(ledger, after);
    assert(forall|who: AccountId| after.given(who) == ledger.given(who));
    assert(forall|who: AccountId| after.received(who) == ledger.received(who));
    assert(forall|id: RatingId| after.responses(id) == ledger.responses(id));
    assert(forall|activity: GroupActivityId| after.activity(activity) == ledger.activity(activity));
    assert(forall|interaction: InteractionId| after.pair(interaction) == ledger.pair(interaction));
}

} // verus!

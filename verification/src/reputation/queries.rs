//! What can be asked of the ledger about an account.

use super::laws::active_ratings_are_ascending;
use super::laws::ratings_by_type_are_ascending;
use super::ledger::ascending;
use super::ledger::Ledger;
use super::pallet::Pallet;
use super::types::AccountId;
use super::types::BlockNumber;
use super::types::Error;
use super::types::Event;
use super::types::GroupActivityId;
use super::types::InteractionId;
use super::types::RatingId;
use super::types::RatingType;
use super::types::ReputationScore;
use vstd::prelude::*;

verus! {

impl Ledger {
    /// Whether rating `id` exists, is active, and is of the given kind.
    pub open spec fn is_active_of_type(self, id: RatingId, rating_type: RatingType) -> bool {
        &&& self.ratings.contains_key(id)
        &&& self.ratings[id].rating_type == rating_type
        &&& self.ratings[id].is_active
    }

    /// The ratings that `who` received and that count at `now`, oldest
    /// first.
    pub open spec fn active_ratings(self, who: AccountId, now: BlockNumber) -> Seq<RatingId> {
        self.received(who).filter(|id: RatingId| self.counts(id, now))
    }

    /// The active ratings of the given kind that `who` received, oldest
    /// first.
    pub open spec fn ratings_by_type(self, who: AccountId, rating_type: RatingType) -> Seq<
        RatingId,
    > {
        self.received(who).filter(|id: RatingId| self.is_active_of_type(id, rating_type))
    }
}

impl Pallet {
    /// The ratings that `user` received and that count at block `now`:
    /// active, and not yet past their expiry, by ascending identifier.
    /// Nothing is switched off.
    pub fn get_active_ratings_for_user(&self, user: AccountId, now: BlockNumber) -> (ids: Vec<
        RatingId,
    >)
        ensures
            ids@ == self@.active_ratings(user, now),
            self.wf() ==> ascending(ids@),
    {
        proof {
            if self.wf() {
                active_ratings_are_ascending(self@, user, now);
            }
        }
        let ratings = self.ratings_received(user);
        let mut ids: Vec<RatingId> = Vec::new();
        let mut k: usize = 0;
        proof {
            reveal(Seq::filter);
            assert(ratings@.take(0) =~= Seq::empty());
        }
        while k < ratings.len()
            invariant
                k <= ratings.len(),
                ratings@ == self@.received(user),
                ids@ == ratings@.take(k as int).filter(|id: RatingId| self@.counts(id, now)),
            decreases ratings.len() - k,
        {
            let id = ratings[k];
            proof {
                reveal(Seq::filter);
                assert(ratings@.take(k as int + 1).drop_last() =~= ratings@.take(k as int));
            }
            if let Some(rating) = self.ratings(id) {
                if rating.is_active && now < rating.expires_at {
                    ids.push(id);
                }
            }
            k = k + 1;
        }
        assert(ratings@.take(ratings@.len() as int) =~= ratings@);
        ids
    }

    /// The active ratings of the given kind that `user` received, by
    /// ascending identifier.
    pub fn get_ratings_by_type(&self, user: AccountId, rating_type: &RatingType) -> (ids: Vec<
        RatingId,
    >)
        ensures
            ids@ == self@.ratings_by_type(user, *rating_type),
            self.wf() ==> ascending(ids@),
    {
        proof {
            if self.wf() {
                ratings_by_type_are_ascending(self@, user, *rating_type);
            }
        }
        let ratings = self.ratings_received(user);
        let mut ids: Vec<RatingId> = Vec::new();
        let mut k: usize = 0;
        proof {
            reveal(Seq::filter);
            assert(ratings@.take(0) =~= Seq::empty());
        }
        while k < ratings.len()
            invariant
                k <= ratings.len(),
                ratings@ == self@.received(user),
                ids@ == ratings@.take(k as int).filter(
                    |id: RatingId| self@.is_active_of_type(id, *rating_type),
                ),
            decreases ratings.len() - k,
        {
            let id = ratings[k];
            proof {
                reveal(Seq::filter);
                assert(ratings@.take(k as int + 1).drop_last() =~= ratings@.take(k as int));
            }
            if let Some(rating) = self.ratings(id) {
                if rating.rating_type == *rating_type && rating.is_active {
                    ids.push(id);
                }
            }
            k = k + 1;
        }
        assert(ratings@.take(ratings@.len() as int) =~= ratings@);
        ids
    }

    /// The standing of `user` at block `now`. Asking recalculates: ratings
    /// of `user` that are due are switched off, and the events of that come
    /// back with the standing.
    pub fn get_current_reputation(&mut self, user: AccountId, now: BlockNumber) -> (r: (
        ReputationScore,
        Vec<Event>,
    ))
        requires
            old(self).wf(),
        ensures
            final(self).wf(),
            old(self)@.precedes(final(self)@),
            final(self)@ == old(self)@.recalculated(user, now),
            r.0 == old(self)@.standing(user, now),
            r.1@ == old(self)@.recalculation_events(user, now),
    {
        let events = self.recalculate_reputation(user, now);
        (self.reputation_scores(user), events)
    }

    /// The standing of `user` at block `now`, with every kind of rating
    /// weighing the same. Asking recalculates.
    pub fn calculate_weighted_reputation(&mut self, user: AccountId, now: BlockNumber) -> (r: (
        ReputationScore,
        Vec<Event>,
    ))
        requires
            old(self).wf(),
        ensures
            final(self).wf(),
            old(self)@.precedes(final(self)@),
            final(self)@ == old(self)@.recalculated(user, now),
            r.0 == old(self)@.standing(user, now),
            r.1@ == old(self)@.recalculation_events(user, now),
    {
        self.get_current_reputation(user, now)
    }

    /// Switches off the ratings of `user` that are due at block `now`, and
    /// recalculates the reputation of `user`.
    pub fn expire_ratings_for_user(&mut self, user: AccountId, now: BlockNumber) -> (events: Vec<
        Event,
    >)
        requires
            old(self).wf(),
        ensures
            final(self).wf(),
            old(self)@.precedes(final(self)@),
            final(self)@ == old(self)@.recalculated(user, now),
            events@ == old(self)@.recalculation_events(user, now),
    {
        self.recalculate_reputation(user, now)
    }

    /// Recalculates the reputation of `user` at block `now`. Any caller may
    /// ask for it.
    pub fn force_recalculate_reputation(
        &mut self,
        who: AccountId,
        now: BlockNumber,
        user: AccountId,
    ) -> (r: Result<Vec<Event>, Error>)
        requires
            old(self).wf(),
        ensures
            final(self).wf(),
            old(self)@.precedes(final(self)@),
            r is Ok,
            final(self)@ == old(self)@.recalculated(user, now),
            r->Ok_0@ == old(self)@.recalculation_events(user, now),
    {
        Ok(self.recalculate_reputation(user, now))
    }

    /// The peer ratings made in a group activity, oldest first.
    pub fn get_group_activity_ratings(&self, group_activity_id: GroupActivityId) -> (ids: Vec<
        RatingId,
    >)
        ensures
            ids@ == self@.activity(group_activity_id),
            self.wf() ==> ascending(ids@),
    {
        self.group_activity_ratings(group_activity_id)
    }

    /// The two slots of an interaction: the student's rating of the tutor,
    /// and the tutor's rating of the student.
    pub fn get_rating_pair(&self, interaction_id: InteractionId) -> (pair: (
        Option<RatingId>,
        Option<RatingId>,
    ))
        ensures
            pair == self@.pair(interaction_id),
    {
        self.rating_pairs(interaction_id)
    }
}

} // verus!

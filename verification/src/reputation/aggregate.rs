//! An account's reputation, computed from the ratings it received.
//!
//! A recalculation reads the account's ratings in the order in which they
//! arrived. A rating whose expiry has passed is switched off and left out; the
//! others are averaged, once as they are and once weighted by their age.

use super::ledger::content_change_keeps_wf;
use super::ledger::Ledger;
use super::pallet::Pallet;
use super::types::AccountId;
use super::types::BlockNumber;
use super::types::Event;
use super::types::GroupActivityId;
use super::types::InteractionId;
use super::types::RatingId;
use super::types::RatingView;
use super::types::ReputationScore;
use super::weight::time_weight;
use super::weight::time_weight_is_bounded;
use vstd::arithmetic::div_mod::lemma_div_is_ordered;
use vstd::arithmetic::div_mod::lemma_div_multiples_vanish;
use vstd::prelude::*;

verus! {

/// The sums a recalculation keeps while it reads an account's ratings.
pub struct Tally {
    /// Sum of the counted scores, in hundredths.
    pub total_score: int,
    /// Number of ratings counted.
    pub total_ratings: int,
    /// Sum of the weighted scores of the recent ratings, in hundredths.
    pub recent_score: int,
    /// Number of recent ratings.
    pub recent_ratings: int,
}

impl RatingView {
    /// Whether the rating is active and its expiry has passed at `now`.
    pub open spec fn is_due(self, now: BlockNumber) -> bool {
        self.is_active && now >= self.expires_at
    }

    /// Whether the rating counts at `now`: it is active and not yet due.
    pub open spec fn counts(self, now: BlockNumber) -> bool {
        self.is_active && now < self.expires_at
    }

    /// The age of the rating at `now`, in blocks.
    pub open spec fn age(self, now: BlockNumber) -> BlockNumber {
        now.saturating_sub(self.created_at)
    }

    /// The score in hundredths, weighted by the rating's age at `now`.
    pub open spec fn weighted_score(self, now: BlockNumber, horizon: BlockNumber) -> int {
        (self.score * 100 * time_weight(self.age(now) as int, horizon as int)) / 100
    }
}

impl Tally {
    /// The sums before any rating was read.
    pub open spec fn zero() -> Tally {
        Tally { total_score: 0, total_ratings: 0, recent_score: 0, recent_ratings: 0 }
    }

    /// The sums after one more counted rating.
    pub open spec fn with(
        self,
        rating: RatingView,
        now: BlockNumber,
        horizon: BlockNumber,
    ) -> Tally {
        if rating.age(now) < horizon {
            Tally {
                total_score: self.total_score + rating.score * 100,
                total_ratings: self.total_ratings + 1,
                recent_score: self.recent_score + rating.weighted_score(now, horizon),
                recent_ratings: self.recent_ratings + 1,
            }
        } else {
            Tally {
                total_score: self.total_score + rating.score * 100,
                total_ratings: self.total_ratings + 1,
                ..self
            }
        }
    }

    /// The standing that these sums give at `now`: the two averages, or zero
    /// where nothing was counted.
    pub open spec fn score(self, now: BlockNumber) -> ReputationScore {
        ReputationScore {
            current_score: if self.recent_ratings > 0 {
                (self.recent_score / self.recent_ratings) as u32
            } else {
                0
            },
            historical_score: if self.total_ratings > 0 {
                (self.total_score / self.total_ratings) as u32
            } else {
                0
            },
            total_ratings: self.total_ratings as u32,
            recent_ratings: self.recent_ratings as u32,
            last_updated: now,
        }
    }
}

impl Ledger {
    /// Whether rating `id` exists, is active, and its expiry has passed.
    pub open spec fn is_due(self, id: RatingId, now: BlockNumber) -> bool {
        self.ratings.contains_key(id) && self.ratings[id].is_due(now)
    }

    /// Whether rating `id` exists and counts at `now`.
    pub open spec fn counts(self, id: RatingId, now: BlockNumber) -> bool {
        self.ratings.contains_key(id) && self.ratings[id].counts(now)
    }

    /// The ratings once every rating listed in `ids` that is due at `now`
    /// has been switched off.
    pub open spec fn ratings_after_expiring(self, ids: Seq<RatingId>, now: BlockNumber) -> Map<
        RatingId,
        RatingView,
    > {
        Map::new(
            |id: RatingId| self.ratings.contains_key(id),
            |id: RatingId|
                if ids.contains(id) && self.is_due(id, now) {
                    self.ratings[id].expired()
                } else {
                    self.ratings[id]
                },
        )
    }

    /// Those of `ids` that are due at `now`, in the same order.
    pub open spec fn due_among(self, ids: Seq<RatingId>, now: BlockNumber) -> Seq<RatingId> {
        ids.filter(|id: RatingId| self.is_due(id, now))
    }

    /// The sums over those of `ids` that count at `now`.
    pub open spec fn tally(self, ids: Seq<RatingId>, now: BlockNumber) -> Tally
        decreases ids.len(),
    {
        if ids.len() == 0 {
            Tally::zero()
        } else {
            let before = self.tally(ids.drop_last(), now);
            if self.counts(ids.last(), now) {
                before.with(self.ratings[ids.last()], now, self.horizon())
            } else {
                before
            }
        }
    }

    /// The standing of `who` at `now`, from the ratings `who` received.
    pub open spec fn standing(self, who: AccountId, now: BlockNumber) -> ReputationScore {
        self.tally(self.received(who), now).score(now)
    }

    /// The ledger after the reputation of `who` was recalculated at `now`:
    /// the ratings of `who` that were due are switched off, and the standing
    /// of `who` is replaced.
    pub open spec fn recalculated(self, who: AccountId, now: BlockNumber) -> Ledger {
        Ledger {
            ratings: self.ratings_after_expiring(self.received(who), now),
            reputation_scores: self.reputation_scores.insert(who, self.standing(who, now)),
            ..self
        }
    }

    /// The events of a recalculation: one for each rating that expired, in
    /// the order of the account's index, then the new standing.
    pub open spec fn recalculation_events(self, who: AccountId, now: BlockNumber) -> Seq<Event> {
        self.due_among(self.received(who), now).map_values(
            |id: RatingId| Event::RatingExpired { rating_id: id, rated: who },
        ).push(
            Event::ReputationUpdated {
                user: who,
                new_score: self.standing(who, now).current_score,
                total_ratings: self.standing(who, now).total_ratings,
            },
        )
    }
}

impl Pallet {
    /// Recalculates the reputation of `user` at block `now`. Ratings of
    /// `user` whose expiry has passed are switched off on the way.
    pub fn recalculate_reputation(&mut self, user: AccountId, now: BlockNumber) -> (events: Vec<
        Event,
    >)
        requires
            old(self).wf(),
        ensures
            final(self).wf(),
            final(self)@ == old(self)@.recalculated(user, now),
            events@ == old(self)@.recalculation_events(user, now),
            old(self)@.precedes(final(self)@),
    {
        let ghost before = self@;
        let ids = self.ratings_received(user);
        let horizon = self.config().rating_expiration_blocks;
        let mut total_score: u32 = 0;
        let mut total_ratings: u32 = 0;
        let mut recent_score: u32 = 0;
        let mut recent_ratings: u32 = 0;
        let mut events: Vec<Event> = Vec::new();
        let mut k: usize = 0;
        proof {
            assert(ids@.take(0).filter(|id: RatingId| before.is_due(id, now)) =~= Seq::empty())
                by {
                reveal(Seq::filter);
            }
            assert(before.ratings_after_expiring(ids@.take(0), now) =~= before.ratings);
        }
        while k < ids.len()
            invariant
                k <= ids.len(),
                before.wf(),
                ids@ == before.received(user),
                horizon == before.config.rating_expiration_blocks,
                self@ == (Ledger {
                    ratings: before.ratings_after_expiring(ids@.take(k as int), now),
                    ..before
                }),
                events@ == before.due_among(ids@.take(k as int), now).map_values(
                    |id: RatingId| Event::RatingExpired { rating_id: id, rated: user },
                ),
                before.tally(ids@.take(k as int), now) == (Tally {
                    total_score: total_score as int,
                    total_ratings: total_ratings as int,
                    recent_score: recent_score as int,
                    recent_ratings: recent_ratings as int,
                }),
            decreases ids.len() - k,
        {
            let id = ids[k];
            proof {
                let seen = ids@.take(k as int);
                let next = ids@.take(k as int + 1);
                assert(next.drop_last() =~= seen);
                assert(next.last() == id);
                assert(!seen.contains(id));
                assert(forall|other: RatingId|
                    next.contains(other) <==> seen.contains(other) || other == id) by {
                    assert(next =~= seen.push(id));
                }
                assert(before.due_among(next, now) == if before.is_due(id, now) {
                    before.due_among(seen, now).push(id)
                } else {
                    before.due_among(seen, now)
                }) by {
                    reveal(Seq::filter);
                }
                assert(self@.ratings[id] == before.ratings[id]);
                tally_is_bounded(before, seen, now);
                tally_is_bounded(before, next, now);
            }
            let (due, counted, score, created_at) = match self.ratings(id) {
                Some(rating) => (
                    rating.is_active && now >= rating.expires_at,
                    rating.is_active && now < rating.expires_at,
                    rating.score,
                    rating.created_at,
                ),
                None => (false, false, 0, 0),
            };
            if due {
                self.deactivate(id);
                events.push(Event::RatingExpired { rating_id: id, rated: user });
                proof {
                    assert(self@.ratings =~= before.ratings_after_expiring(
                        ids@.take(k as int + 1),
                        now,
                    ));
                    assert(events@ =~= before.due_among(ids@.take(k as int + 1), now).map_values(
                        |id: RatingId| Event::RatingExpired { rating_id: id, rated: user },
                    ));
                }
            } else {
                proof {
                    assert(self@.ratings =~= before.ratings_after_expiring(
                        ids@.take(k as int + 1),
                        now,
                    ));
                }
                if counted {
                    total_score = total_score.saturating_add(score as u32 * 100);
                    total_ratings = total_ratings.saturating_add(1);
                    let age = now.saturating_sub(created_at);
                    if age < horizon as u64 {
                        let time_weight = Self::calculate_time_weight(age as u32, horizon);
                        let weighted_score = (score as u32 * 100 * time_weight) / 100;
                        recent_score = recent_score.saturating_add(weighted_score);
                        recent_ratings = recent_ratings.saturating_add(1);
                    }
                }
            }
            k = k + 1;
        }
        proof {
            assert(ids@.take(ids@.len() as int) =~= ids@);
            tally_is_bounded(before, ids@, now);
        }
        let current_score = if recent_ratings > 0 {
            recent_score / recent_ratings
        } else {
            0
        };
        let historical_score = if total_ratings > 0 {
            total_score / total_ratings
        } else {
            0
        };
        let reputation = ReputationScore {
            current_score,
            historical_score,
            total_ratings,
            recent_ratings,
            last_updated: now,
        };
        self.store_reputation(user, reputation);
        events.push(
            Event::ReputationUpdated { user, new_score: current_score, total_ratings },
        );
        proof {
            assert(reputation == before.standing(user, now));
            recalculation_keeps_wf(before, user, now);
        }
        events
    }
}

/// A recalculation leaves a well-formed ledger well formed, and takes
/// nothing back.
pub proof fn recalculation_keeps_wf(ledger: Ledger, who: AccountId, now: BlockNumber)
    requires
        ledger.wf(),
    ensures
        ledger.recalculated(who, now).wf(),
        ledger.precedes(ledger.recalculated(who, now)),
{
    let after = ledger.recalculated(who, now);
    content_change_keeps_wf(ledger, after);
    assert(forall|who: AccountId| after.given(who) == ledger.given(who));
    assert(forall|who: AccountId| after.received(who) == ledger.received(who));
    assert(forall|id: RatingId| after.responses(id) == ledger.responses(id));
    assert(forall|activity: GroupActivityId|
        after.activity(activity) == ledger.activity(activity));
    assert(forall|interaction: InteractionId|
        after.pair(interaction) == ledger.pair(interaction));
}

/// Sums over `n` valid ratings are at most `500 * n`, and at least `100 * n`
/// and `50 * n`.
pub proof fn tally_is_bounded(ledger: Ledger, ids: Seq<RatingId>, now: BlockNumber)
    requires
        ledger.ratings_wf(),
    ensures
        ({
            let t = ledger.tally(ids, now);
            &&& 0 <= t.recent_ratings <= t.total_ratings <= ids.len()
            &&& 100 * t.total_ratings <= t.total_score <= 500 * t.total_ratings
            &&& 50 * t.recent_ratings <= t.recent_score <= 500 * t.recent_ratings
        }),
    decreases ids.len(),
{
    if ids.len() > 0 {
        tally_is_bounded(ledger, ids.drop_last(), now);
        if ledger.counts(ids.last(), now) {
            weighted_score_is_bounded(ledger.ratings[ids.last()], now, ledger.horizon());
        }
    }
}

/// The weighted score of a valid rating lies between half its score and its
/// score.
pub proof fn weighted_score_is_bounded(rating: RatingView, now: BlockNumber, horizon: BlockNumber)
    requires
        rating.valid(),
    ensures
        rating.score * 50 <= rating.weighted_score(now, horizon) <= rating.score * 100,
        50 <= rating.weighted_score(now, horizon) <= 500,
{
    let w = time_weight(rating.age(now) as int, horizon as int);
    time_weight_is_bounded(rating.age(now) as int, horizon as int);
    let s = rating.score as int;
    assert(s * 100 * 50 <= s * 100 * w <= s * 100 * 100) by (nonlinear_arith)
        requires
            50 <= w <= 100,
            1 <= s <= 5,
    ;
    assert(s * 100 * 50 == (s * 50) * 100) by (nonlinear_arith);
    assert(s * 100 * 100 == (s * 100) * 100) by (nonlinear_arith);
    lemma_div_is_ordered(s * 100 * 50, s * 100 * w, 100);
    lemma_div_is_ordered(s * 100 * w, s * 100 * 100, 100);
    lemma_div_multiples_vanish(s * 50, 100);
    lemma_div_multiples_vanish(s * 100, 100);
}

} // verus!

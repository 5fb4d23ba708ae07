//! Switching off ratings whose expiry has passed, a bounded number at a time.

use super::ledger::content_change_keeps_wf;
use super::ledger::Ledger;
use super::pallet::Pallet;
use super::types::AccountId;
use super::types::BlockNumber;
use super::types::Error;
use super::types::Event;
use super::types::GroupActivityId;
use super::types::InteractionId;
use super::types::RatingId;
use vstd::prelude::*;

verus! {

/// Most ratings that one call of `expire_old_ratings` switches off.
pub const MAX_EXPIRED_PER_CALL: u32 = 100;

impl Ledger {
    /// The ratings with an identifier under `bound` that are due at `now`,
    /// by ascending identifier.
    pub open spec fn due_below(self, bound: RatingId, now: BlockNumber) -> Seq<RatingId>
        decreases bound,
    {
        if bound <= 1 {
            Seq::empty()
        } else {
            let last = (bound - 1) as RatingId;
            if self.is_due(last, now) {
                self.due_below(last, now).push(last)
            } else {
                self.due_below(last, now)
            }
        }
    }

    /// The ratings that a sweep of at most `limit` ratings switches off at
    /// `now`: the due ratings with the smallest identifiers.
    pub open spec fn batch(self, limit: u32, now: BlockNumber) -> Seq<RatingId> {
        let due = self.due_below(self.next_rating_id, now);
        if due.len() > limit {
            due.take(limit as int)
        } else {
            due
        }
    }

    /// The ledger after a sweep of at most `limit` ratings at `now`.
    pub open spec fn swept(self, limit: u32, now: BlockNumber) -> Ledger {
        Ledger { ratings: self.ratings_after_expiring(self.batch(limit, now), now), ..self }
    }

    /// The events of a sweep: one for each rating it switched off, by
    /// ascending identifier.
    pub open spec fn sweep_events(self, limit: u32, now: BlockNumber) -> Seq<Event> {
        self.batch(limit, now).map_values(
            |id: RatingId| Event::RatingExpired { rating_id: id, rated: self.ratings[id].rated },
        )
    }
}

/// The ratings that are due under a bound are due, lie under the bound, and
/// are those that are due under any larger bound, as far as they go.
pub proof fn due_below_grows(ledger: Ledger, lower: RatingId, upper: RatingId, now: BlockNumber)
    requires
        lower <= upper,
    ensures
        ledger.due_below(lower, now).is_prefix_of(ledger.due_below(upper, now)),
        forall|k: int|
            0 <= k < ledger.due_below(lower, now).len() ==> {
                let id = #[trigger] ledger.due_below(lower, now)[k];
                1 <= id < lower && ledger.is_due(id, now)
            },
    decreases upper,
{
    if lower < upper {
        due_below_grows(ledger, lower, (upper - 1) as RatingId, now);
    } else if lower > 1 {
        due_below_grows(ledger, (lower - 1) as RatingId, (lower - 1) as RatingId, now);
    }
}

impl Pallet {
    /// Switches off ratings that are due at block `now`, by ascending
    /// identifier, and stops after `limit` of them. No reputation is
    /// recalculated.
    pub fn expire_old_ratings_batch(&mut self, limit: u32, now: BlockNumber) -> (events: Vec<Event>)
        requires
            old(self).wf(),
        ensures
            final(self).wf(),
            old(self)@.precedes(final(self)@),
            final(self)@ == old(self)@.swept(limit, now),
            events@ == old(self)@.sweep_events(limit, now),
            events@.len() <= limit,
    {
        let ghost before = self@;
        let max_rating_id = self.next_rating_id();
        let mut events: Vec<Event> = Vec::new();
        let mut processed: u32 = 0;
        let mut rating_id: RatingId = 1;
        proof {
            assert(before.ratings_after_expiring(before.due_below(1, now), now) =~= before.ratings);
        }
        while rating_id < max_rating_id && processed < limit
            invariant
                before.wf(),
                max_rating_id == before.next_rating_id,
                1 <= rating_id <= max_rating_id,
                processed == before.due_below(rating_id, now).len(),
                processed <= limit,
                self@ == (Ledger {
                    ratings: before.ratings_after_expiring(before.due_below(rating_id, now), now),
                    ..before
                }),
                events@ == before.due_below(rating_id, now).map_values(
                    |id: RatingId|
                        Event::RatingExpired { rating_id: id, rated: before.ratings[id].rated },
                ),
            decreases max_rating_id - rating_id,
        {
            let ghost seen = before.due_below(rating_id, now);
            let ghost next = before.due_below((rating_id + 1) as RatingId, now);
            proof {
                due_below_grows(before, rating_id, rating_id, now);
                assert(!seen.contains(rating_id));
                assert(self@.ratings[rating_id] == before.ratings[rating_id]);
                assert(next == if before.is_due(rating_id, now) {
                    seen.push(rating_id)
                } else {
                    seen
                });
            }
            let found = match self.ratings(rating_id) {
                Some(rating) => Some((rating.is_active && now >= rating.expires_at, rating.rated)),
                None => None,
            };
            if let Some((due, rated)) = found {
                if due {
                    self.deactivate(rating_id);
                    events.push(Event::RatingExpired { rating_id, rated });
                    processed = processed + 1;
                    proof {
                        broadcast use vstd::seq_lib::lemma_seq_contains_after_push;

                        assert(self@.ratings =~= before.ratings_after_expiring(next, now));
                        assert(events@ =~= next.map_values(
                            |id: RatingId|
                                Event::RatingExpired {
                                    rating_id: id,
                                    rated: before.ratings[id].rated,
                                },
                        ));
                    }
                }
            }
            rating_id = rating_id + 1;
        }
        proof {
            let due = before.due_below(max_rating_id, now);
            let seen = before.due_below(rating_id, now);
            due_below_grows(before, rating_id, max_rating_id, now);
            if due.len() > limit {
                assert(seen =~= due.take(limit as int));
            } else {
                assert(seen =~= due);
            }
            assert(seen == before.batch(limit, now));
            sweep_keeps_wf(before, limit, now);
        }
        events
    }

    /// Switches off at most `limit` ratings that are due at block `now`,
    /// and never more than `MAX_EXPIRED_PER_CALL`. Any caller may ask for
    /// it.
    pub fn expire_old_ratings(&mut self, who: AccountId, now: BlockNumber, limit: u32) -> (r: Result<
        Vec<Event>,
        Error,
    >)
        requires
            old(self).wf(),
        ensures
            final(self).wf(),
            old(self)@.precedes(final(self)@),
            r is Ok,
            final(self)@ == old(self)@.swept(
                if limit < MAX_EXPIRED_PER_CALL {
                    limit
                } else {
                    MAX_EXPIRED_PER_CALL
                },
                now,
            ),
            r->Ok_0@ == old(self)@.sweep_events(
                if limit < MAX_EXPIRED_PER_CALL {
                    limit
                } else {
                    MAX_EXPIRED_PER_CALL
                },
                now,
            ),
    {
        let actual_limit = if limit < MAX_EXPIRED_PER_CALL {
            limit
        } else {
            MAX_EXPIRED_PER_CALL
        };
        Ok(self.expire_old_ratings_batch(actual_limit, now))
    }
}

/// A sweep leaves a well-formed ledger well formed, and takes nothing back.
pub proof fn sweep_keeps_wf(ledger: Ledger, limit: u32, now: BlockNumber)
    requires
        ledger.wf(),
    ensures
        ledger.swept(limit, now).wf(),
        ledger.precedes(ledger.swept(limit, now)),
{
    let after = ledger.swept(limit, now);
    content_change_keeps_wf(ledger, after);
    assert(forall|who: AccountId| after.given(who) == ledger.given(who));
    assert(forall|who: AccountId| after.received(who) == ledger.received(who));
    assert(forall|id: RatingId| after.responses(id) == ledger.responses(id));
    assert(forall|activity: GroupActivityId| after.activity(activity) == ledger.activity(activity));
    assert(forall|interaction: InteractionId| after.pair(interaction) == ledger.pair(interaction));
}

} // verus!

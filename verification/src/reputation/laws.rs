//! What holds of the ledger whatever commands it is given.

use super::aggregate::tally_is_bounded;
use super::ledger::ascending;
use super::ledger::Ledger;
use super::types::AccountId;
use super::types::BlockNumber;
use super::types::Error;
use super::types::Event;
use super::types::GroupActivityId;
use super::types::InteractionId;
use super::types::MAX_COMMENT_LENGTH;
use super::types::MAX_PEER_RATINGS;
use super::types::MAX_RATINGS_PER_USER;
use super::types::RatingAspects;
use super::types::RatingId;
use super::types::RatingType;
use super::types::RatingView;
use super::types::ReputationScore;
use super::validation::aspects_acceptable;
use super::validation::score_in_range;
use vstd::arithmetic::div_mod::lemma_div_is_ordered;
use vstd::arithmetic::div_mod::lemma_div_multiples_vanish;
use vstd::prelude::*;

verus! {

/// Every rating in a well-formed ledger has a score from 1 to 5 and was
/// given by one account to another.
pub proof fn stored_ratings_are_valid(ledger: Ledger, id: RatingId)
    requires
        ledger.wf(),
        ledger.ratings.contains_key(id),
    ensures
        1 <= ledger.ratings[id].score <= 5,
        ledger.ratings[id].rater != ledger.ratings[id].rated,
{
}

/// A rating of oneself, and a rating with a score outside 1 to 5, is
/// refused.
pub proof fn invalid_ratings_are_refused(ledger: Ledger, candidate: RatingView)
    ensures
        candidate.rater == candidate.rated ==> ledger.refusal(candidate) == Some(
            Error::CannotRateSelf,
        ),
        candidate.rater != candidate.rated && !score_in_range(candidate.score) ==> ledger.refusal(
            candidate,
        ) == Some(Error::InvalidRatingScore),
{
}

/// An update to a score outside 1 to 5 is refused.
pub proof fn invalid_updates_are_refused(
    ledger: Ledger,
    who: AccountId,
    now: BlockNumber,
    rating_id: RatingId,
    new_score: u8,
    new_comment: Option<Seq<u8>>,
    new_aspects: Option<RatingAspects>,
)
    requires
        !score_in_range(new_score),
    ensures
        ledger.update_refusal(who, now, rating_id, new_score, new_comment, new_aspects) == Some(
            Error::InvalidRatingScore,
        ),
{
}

/// The sums over any list of ratings depend only on the ratings that
/// count: two ledgers in which the same ratings count, and say the same,
/// give the same sums.
pub proof fn tally_reads_counted_ratings(
    first: Ledger,
    second: Ledger,
    ids: Seq<RatingId>,
    now: BlockNumber,
)
    requires
        first.config == second.config,
        forall|id: RatingId| first.counts(id, now) == second.counts(id, now),
        forall|id: RatingId| first.counts(id, now) ==> first.ratings[id] == second.ratings[id],
    ensures
        first.tally(ids, now) == second.tally(ids, now),
    decreases ids.len(),
{
    if ids.len() > 0 {
        tally_reads_counted_ratings(first, second, ids.drop_last(), now);
    }
}

/// Recalculating a second time at the same block changes nothing: the
/// standing is the same, the ledger is the same, and no rating expires.
pub proof fn recalculation_is_idempotent(ledger: Ledger, who: AccountId, now: BlockNumber)
    ensures
        ledger.recalculated(who, now).standing(who, now) == ledger.standing(who, now),
        ledger.recalculated(who, now).recalculated(who, now) == ledger.recalculated(who, now),
        ledger.recalculated(who, now).due_among(ledger.received(who), now) == Seq::<
            RatingId,
        >::empty(),
{
    let once = ledger.recalculated(who, now);
    let ids = ledger.received(who);
    assert(once.received(who) == ids);
    tally_reads_counted_ratings(once, ledger, ids, now);
    assert(once.ratings_after_expiring(ids, now) =~= once.ratings);
    assert(once.reputation_scores.insert(who, once.standing(who, now))
        =~= once.reputation_scores);
    nothing_due_is_left(once, ids, now);
}

/// Where none of the listed ratings is due, none is picked.
proof fn nothing_due_is_left(ledger: Ledger, ids: Seq<RatingId>, now: BlockNumber)
    requires
        forall|k: int| 0 <= k < ids.len() ==> !ledger.is_due(#[trigger] ids[k], now),
    ensures
        ledger.due_among(ids, now) == Seq::<RatingId>::empty(),
    decreases ids.len(),
{
    reveal(Seq::filter);
    if ids.len() > 0 {
        nothing_due_is_left(ledger, ids.drop_last(), now);
    }
}

/// Picking from an ascending list leaves an ascending list, and picks
/// nothing that was not listed.
pub proof fn picking_keeps_ascending(ids: Seq<RatingId>, pick: spec_fn(RatingId) -> bool)
    requires
        ascending(ids),
    ensures
        ascending(ids.filter(pick)),
        forall|k: int|
            0 <= k < ids.filter(pick).len() ==> ids.contains(#[trigger] ids.filter(pick)[k])
                && pick(ids.filter(pick)[k]),
    decreases ids.len(),
{
    reveal(Seq::filter);
    if ids.len() > 0 {
        let before = ids.drop_last();
        picking_keeps_ascending(before, pick);
        let picked = before.filter(pick);
        assert forall|k: int| 0 <= k < picked.len() implies #[trigger] picked[k] < ids.last()
            && ids.contains(picked[k]) by {
            let j = choose|j: int| 0 <= j < before.len() && before[j] == picked[k];
            assert(ids[j] == picked[k]);
        }
        assert(ids[ids.len() - 1] == ids.last());
    }
}

/// Every account's indices, and every group activity's index, list their
/// ratings by ascending identifier: in the order in which they were created.
pub proof fn indices_are_ascending(ledger: Ledger, who: AccountId, activity: GroupActivityId)
    requires
        ledger.wf(),
    ensures
        ascending(ledger.given(who)),
        ascending(ledger.received(who)),
        ascending(ledger.activity(activity)),
{
}

/// The ratings that count for an account come by ascending identifier, each
/// once, and each of them was received by the account.
pub proof fn active_ratings_are_ascending(ledger: Ledger, who: AccountId, now: BlockNumber)
    requires
        ledger.wf(),
    ensures
        ascending(ledger.active_ratings(who, now)),
        ledger.active_ratings(who, now).no_duplicates(),
        forall|k: int|
            0 <= k < ledger.active_ratings(who, now).len() ==> {
                let id = #[trigger] ledger.active_ratings(who, now)[k];
                ledger.counts(id, now) && ledger.ratings[id].rated == who
            },
{
    indices_are_ascending(ledger, who, 0);
    picking_keeps_ascending(ledger.received(who), |id: RatingId| ledger.counts(id, now));
    let picked = ledger.active_ratings(who, now);
    assert forall|k: int| 0 <= k < picked.len() implies ledger.ratings[#[trigger] picked[k]].rated
        == who by {
        let j = choose|j: int|
            0 <= j < ledger.received(who).len() && ledger.received(who)[j] == picked[k];
        assert(ledger.ratings[ledger.received(who)[j]].rated == who);
    }
}

/// The active ratings of one kind that an account received come by
/// ascending identifier, each once, and each of them was received by the
/// account, is active and is of that kind.
pub proof fn ratings_by_type_are_ascending(ledger: Ledger, who: AccountId, rating_type: RatingType)
    requires
        ledger.wf(),
    ensures
        ascending(ledger.ratings_by_type(who, rating_type)),
        ledger.ratings_by_type(who, rating_type).no_duplicates(),
        forall|k: int|
            0 <= k < ledger.ratings_by_type(who, rating_type).len() ==> {
                let id = #[trigger] ledger.ratings_by_type(who, rating_type)[k];
                ledger.is_active_of_type(id, rating_type) && ledger.ratings[id].rated == who
            },
{
    indices_are_ascending(ledger, who, 0);
    picking_keeps_ascending(
        ledger.received(who),
        |id: RatingId| ledger.is_active_of_type(id, rating_type),
    );
    let picked = ledger.ratings_by_type(who, rating_type);
    assert forall|k: int| 0 <= k < picked.len() implies ledger.ratings[#[trigger] picked[k]].rated
        == who by {
        let j = choose|j: int|
            0 <= j < ledger.received(who).len() && ledger.received(who)[j] == picked[k];
        assert(ledger.ratings[ledger.received(who)[j]].rated == who);
    }
}

/// The sums count exactly the listed ratings that count.
proof fn tally_counts_what_counts(ledger: Ledger, ids: Seq<RatingId>, now: BlockNumber)
    ensures
        ledger.tally(ids, now).total_ratings == ids.filter(
            |id: RatingId| ledger.counts(id, now),
        ).len(),
    decreases ids.len(),
{
    reveal(Seq::filter);
    if ids.len() > 0 {
        tally_counts_what_counts(ledger, ids.drop_last(), now);
    }
}

/// A standing counts the ratings that are active for the account at that
/// block, all of them and no others.
pub proof fn standing_counts_the_active_ratings(ledger: Ledger, who: AccountId, now: BlockNumber)
    requires
        ledger.wf(),
    ensures
        ledger.standing(who, now).total_ratings == ledger.active_ratings(who, now).len(),
{
    tally_counts_what_counts(ledger, ledger.received(who), now);
    tally_is_bounded(ledger, ledger.received(who), now);
    assert(ledger.received(who).len() <= MAX_RATINGS_PER_USER);
}

/// A standing counts at most as many ratings as an account can receive.
/// Its historical score lies between 100 and 500 where a rating was
/// counted, its current score between 50 and 500 where a recent rating was
/// counted, and each is 0 otherwise.
pub proof fn standing_is_bounded(ledger: Ledger, who: AccountId, now: BlockNumber)
    requires
        ledger.wf(),
    ensures
        ({
            let standing = ledger.standing(who, now);
            &&& standing.recent_ratings <= standing.total_ratings <= MAX_RATINGS_PER_USER
            &&& standing.last_updated == now
            &&& if standing.total_ratings > 0 {
                100 <= standing.historical_score <= 500
            } else {
                standing.historical_score == 0
            }
            &&& if standing.recent_ratings > 0 {
                50 <= standing.current_score <= 500
            } else {
                standing.current_score == 0
            }
        }),
{
    let tally = ledger.tally(ledger.received(who), now);
    tally_is_bounded(ledger, ledger.received(who), now);
    assert(ledger.received(who).len() <= MAX_RATINGS_PER_USER);
    if tally.total_ratings > 0 {
        average_is_bounded(tally.total_score, tally.total_ratings, 100, 500);
    }
    if tally.recent_ratings > 0 {
        average_is_bounded(tally.recent_score, tally.recent_ratings, 50, 500);
    }
}

/// The average of `n` numbers between `low` and `high` lies between `low`
/// and `high`.
proof fn average_is_bounded(sum: int, n: int, low: int, high: int)
    requires
        0 < n,
        low * n <= sum <= high * n,
    ensures
        low <= sum / n <= high,
{
    lemma_div_is_ordered(low * n, sum, n);
    lemma_div_is_ordered(sum, high * n, n);
    lemma_div_multiples_vanish(low, n);
    lemma_div_multiples_vanish(high, n);
    assert(low * n == n * low) by (nonlinear_arith);
    assert(high * n == n * high) by (nonlinear_arith);
}

/// A rating that is inactive stays inactive in every ledger that follows.
pub proof fn inactive_stays_inactive(before: Ledger, after: Ledger, id: RatingId)
    requires
        before.precedes(after),
        before.ratings.contains_key(id),
        !before.ratings[id].is_active,
    ensures
        after.ratings.contains_key(id),
        !after.ratings[id].is_active,
{
}

/// A rating keeps its expiry in every ledger that follows: no command
/// moves it.
pub proof fn expiry_is_fixed(before: Ledger, after: Ledger, id: RatingId)
    requires
        before.precedes(after),
        before.ratings.contains_key(id),
    ensures
        after.ratings.contains_key(id),
        after.ratings[id].expires_at == before.ratings[id].expires_at,
        after.ratings[id].created_at == before.ratings[id].created_at,
{
}

/// A rating that the ledger creates is stored as it was proposed, unless
/// it is due at the block of its creation: then the recalculation that
/// belongs to the creation has switched it off already. That is so where
/// the expiration period is 0, and at the last block there is.
pub proof fn created_rating_is_stored(ledger: Ledger, candidate: RatingView)
    requires
        ledger.wf(),
        candidate.id == ledger.next_rating_id,
        candidate.is_active,
        ledger.refusal(candidate) is None,
    ensures
        ledger.created(candidate).ratings.contains_key(candidate.id),
        ledger.created(candidate).ratings[candidate.id] == if candidate.created_at
            >= candidate.expires_at {
            candidate.expired()
        } else {
            candidate
        },
        ledger.created(candidate).next_rating_id == candidate.id + 1,
        ledger.created(candidate).given(candidate.rater) == ledger.given(candidate.rater).push(
            candidate.id,
        ),
        ledger.created(candidate).received(candidate.rated) == ledger.received(
            candidate.rated,
        ).push(candidate.id),
{
    let stored = ledger.with_rating(candidate);
    let index = stored.received(candidate.rated);
    assert(index == ledger.received(candidate.rated).push(candidate.id));
    assert(index[index.len() - 1] == candidate.id);
    assert(index.contains(candidate.id));
}

/// The slot that `direction` fills in a pair.
pub open spec fn slot_of(pair: (Option<RatingId>, Option<RatingId>), direction: RatingType) -> Option<
    RatingId,
> {
    if direction == RatingType::StudentToTutor {
        pair.0
    } else {
        pair.1
    }
}

/// A rating between student and tutor that the ledger creates for an
/// interaction fills the slot of its direction.
pub proof fn created_rating_fills_its_slot(
    ledger: Ledger,
    candidate: RatingView,
    interaction: InteractionId,
)
    requires
        ledger.refusal(candidate) is None,
        candidate.paired_interaction() == Some(interaction),
    ensures
        slot_of(ledger.pair(interaction), candidate.rating_type) is None,
        slot_of(ledger.created(candidate).pair(interaction), candidate.rating_type) == Some(
            candidate.id,
        ),
{
}

/// A pair is reported complete by the creation that fills its second slot,
/// and by no other.
pub proof fn completion_is_told_once(
    ledger: Ledger,
    candidate: RatingView,
    interaction: InteractionId,
)
    requires
        ledger.refusal(candidate) is None,
        candidate.paired_interaction() == Some(interaction),
    ensures
        ({
            let pair = ledger.pair(interaction);
            let other = if candidate.rating_type == RatingType::StudentToTutor {
                pair.1
            } else {
                pair.0
            };
            ledger.entry_events(candidate) == if other is Some {
                let filled = ledger.created(candidate).pair(interaction);
                seq![
                    Event::BidirectionalRatingCompleted {
                        interaction_id: interaction,
                        student_rating: filled.0->Some_0,
                        tutor_rating: filled.1->Some_0,
                    },
                ]
            } else {
                Seq::<Event>::empty()
            }
        }),
{
}

/// Once a rating of one direction was created for an interaction, every
/// ledger that follows refuses a second one of that direction: with
/// `BidirectionalRatingExists` where the same rating without the
/// interaction would have been taken.
pub proof fn second_session_rating_is_refused(
    ledger: Ledger,
    first: RatingView,
    later: Ledger,
    second: RatingView,
    interaction: InteractionId,
)
    requires
        ledger.refusal(first) is None,
        first.paired_interaction() == Some(interaction),
        ledger.created(first).precedes(later),
        second.paired_interaction() == Some(interaction),
        second.rating_type == first.rating_type,
    ensures
        later.refusal(second) is Some,
        later.pairing_refusal(second) == Some(Error::BidirectionalRatingExists),
        later.refusal(RatingView { interaction_id: None, ..second }) is None ==> later.refusal(
            second,
        ) == Some(Error::BidirectionalRatingExists),
{
    created_rating_fills_its_slot(ledger, first, interaction);
    let taken = ledger.created(first).pair(interaction);
    assert(later.pair(interaction).0 == taken.0 || later.pair(interaction).1 == taken.1);
    let plain = RatingView { interaction_id: None, ..second };
    assert(plain.indexed_activity() == second.indexed_activity());
    assert(later.peer_refusal(plain) == later.peer_refusal(second));
}

/// A peer who was rated inside a group activity stays rated there in every
/// ledger that follows.
pub proof fn peer_rating_is_remembered(
    before: Ledger,
    after: Ledger,
    rater: AccountId,
    rated: AccountId,
    activity: GroupActivityId,
)
    requires
        before.precedes(after),
        before.has_peer_rating(rater, rated, activity),
    ensures
        after.has_peer_rating(rater, rated, activity),
{
    let k = choose|k: int|
        0 <= k < before.activity(activity).len() && before.rates(
            #[trigger] before.activity(activity)[k],
            rater,
            rated,
        );
    assert(before.activity(activity).is_prefix_of(after.activity(activity)));
    assert(after.activity(activity)[k] == before.activity(activity)[k]);
    assert(after.rates(after.activity(activity)[k], rater, rated));
}

/// Once a peer was rated inside a group activity, every ledger that follows
/// refuses a second rating of that peer by the same rater in that activity.
pub proof fn second_peer_rating_is_refused(
    ledger: Ledger,
    first: RatingView,
    later: Ledger,
    second: RatingView,
    activity: GroupActivityId,
)
    requires
        ledger.wf(),
        first.id == ledger.next_rating_id,
        ledger.refusal(first) is None,
        first.indexed_activity() == Some(activity),
        ledger.created(first).precedes(later),
        second.indexed_activity() == Some(activity),
        second.rater == first.rater,
        second.rated == first.rated,
    ensures
        later.has_peer_rating(first.rater, first.rated, activity),
        later.peer_rating_refusal(second) == Some(Error::AlreadyRatedPeer),
        later.refusal(second) is Some,
{
    let created = ledger.created(first);
    let index = created.activity(activity);
    assert(index == ledger.activity(activity).push(first.id));
    assert(created.rates(index[index.len() - 1], first.rater, first.rated));
    assert(created.has_peer_rating(first.rater, first.rated, activity));
    peer_rating_is_remembered(created, later, first.rater, first.rated, activity);
}

/// A rating inside one group activity leaves every other activity as it
/// was: whoever had not rated a peer there has still not rated that peer
/// there.
pub proof fn peer_ratings_are_kept_apart(
    ledger: Ledger,
    first: RatingView,
    rater: AccountId,
    rated: AccountId,
    other: GroupActivityId,
)
    requires
        ledger.wf(),
        first.id == ledger.next_rating_id,
        ledger.refusal(first) is None,
        first.indexed_activity() != Some(other),
    ensures
        ledger.created(first).activity(other) == ledger.activity(other),
        ledger.created(first).has_peer_rating(rater, rated, other) == ledger.has_peer_rating(
            rater,
            rated,
            other,
        ),
{
    let created = ledger.created(first);
    assert(created.activity(other) == ledger.activity(other));
    assert(!ledger.ratings.contains_key(first.id));
    assert forall|k: int| 0 <= k < ledger.activity(other).len() implies created.rates(
        #[trigger] ledger.activity(other)[k],
        rater,
        rated,
    ) == ledger.rates(ledger.activity(other)[k], rater, rated) by {
        assert(ledger.is_peer_rating_in(ledger.activity(other)[k], other));
    }
    if ledger.has_peer_rating(rater, rated, other) {
        let k = choose|k: int|
            0 <= k < ledger.activity(other).len() && ledger.rates(
                #[trigger] ledger.activity(other)[k],
                rater,
                rated,
            );
        assert(created.rates(created.activity(other)[k], rater, rated));
    }
    if created.has_peer_rating(rater, rated, other) {
        let k = choose|k: int|
            0 <= k < created.activity(other).len() && created.rates(
                #[trigger] created.activity(other)[k],
                rater,
                rated,
            );
        assert(ledger.rates(ledger.activity(other)[k], rater, rated));
    }
}

/// Whoever has rated a peer inside one group activity can rate the same
/// peer inside another: the second rating is taken where the peer was not
/// yet rated there, the rating itself is valid, and the indices and the
/// counter have room for it.
pub proof fn same_peer_can_be_rated_in_another_activity(
    ledger: Ledger,
    first: RatingView,
    second: RatingView,
    activity: GroupActivityId,
    other: GroupActivityId,
)
    requires
        ledger.wf(),
        first.id == ledger.next_rating_id,
        ledger.peer_rating_refusal(first) is None,
        first.indexed_activity() == Some(activity),
        second.id == ledger.created(first).next_rating_id,
        second.rater == first.rater,
        second.rated == first.rated,
        second.rating_type == RatingType::PeerToPeer,
        second.group_activity_id == Some(other),
        other != activity,
        !ledger.has_peer_rating(first.rater, first.rated, other),
        score_in_range(second.score),
        aspects_acceptable(second.aspects),
        second.comment.len() <= MAX_COMMENT_LENGTH,
        second.comment.len() <= ledger.config.max_comment_length,
        ledger.given(first.rater).len() + 1 < MAX_RATINGS_PER_USER,
        ledger.received(first.rated).len() + 1 < MAX_RATINGS_PER_USER,
        ledger.activity(other).len() < MAX_PEER_RATINGS,
        ledger.next_rating_id + 1 < u64::MAX,
    ensures
        ledger.created(first).peer_rating_refusal(second) is None,
        ledger.created(first).refusal(second) is None,
{
    peer_ratings_are_kept_apart(ledger, first, first.rater, first.rated, other);
    let created = ledger.created(first);
    assert(created.given(first.rater) == ledger.given(first.rater).push(first.id));
    assert(created.received(first.rated) == ledger.received(first.rated).push(first.id));
    assert(second.indexed_activity() == Some(other));
    assert(second.paired_interaction() is None);
}

/// No two ratings of a well-formed ledger are peer ratings by the same
/// rater about the same peer inside the same group activity.
pub proof fn one_peer_rating_per_activity(
    ledger: Ledger,
    first: RatingId,
    second: RatingId,
    activity: GroupActivityId,
)
    requires
        ledger.wf(),
        ledger.is_peer_rating_in(first, activity),
        ledger.is_peer_rating_in(second, activity),
        ledger.ratings[first].rater == ledger.ratings[second].rater,
        ledger.ratings[first].rated == ledger.ratings[second].rated,
    ensures
        first == second,
{
    let index = ledger.activity(activity);
    assert(index.contains(first));
    assert(index.contains(second));
    let j = choose|j: int| 0 <= j < index.len() && index[j] == first;
    let k = choose|k: int| 0 <= k < index.len() && index[k] == second;
    if j < k {
        assert(ledger.ratings[index[j]].rater != ledger.ratings[index[k]].rater
            || ledger.ratings[index[j]].rated != ledger.ratings[index[k]].rated);
    } else if k < j {
        assert(ledger.ratings[index[k]].rater != ledger.ratings[index[j]].rater
            || ledger.ratings[index[k]].rated != ledger.ratings[index[j]].rated);
    }
}

/// No two ratings of a well-formed ledger are ratings of the same
/// direction for the same interaction.
pub proof fn one_session_rating_per_direction(
    ledger: Ledger,
    first: RatingId,
    second: RatingId,
    direction: RatingType,
    interaction: InteractionId,
)
    requires
        ledger.wf(),
        direction == RatingType::StudentToTutor || direction == RatingType::TutorToStudent,
        ledger.is_session_rating_of(first, direction, interaction),
        ledger.is_session_rating_of(second, direction, interaction),
    ensures
        first == second,
{
}

/// An account's standing, once recalculated, is what its ratings give:
/// the standing stored for `who` is the standing at the block of the
/// recalculation.
pub proof fn recalculation_stores_the_standing(ledger: Ledger, who: AccountId, now: BlockNumber)
    ensures
        ledger.recalculated(who, now).reputation(who) == ledger.standing(who, now),
        forall|other: AccountId|
            other != who ==> #[trigger] ledger.recalculated(who, now).reputation(other)
                == ledger.reputation(other),
{
}

/// An account without ratings has no standing to speak of: all zero but the
/// block.
pub proof fn standing_without_ratings(ledger: Ledger, who: AccountId, now: BlockNumber)
    requires
        ledger.received(who).len() == 0,
    ensures
        ledger.standing(who, now) == (ReputationScore {
            current_score: 0,
            historical_score: 0,
            total_ratings: 0,
            recent_ratings: 0,
            last_updated: now,
        }),
{
}

} // verus!

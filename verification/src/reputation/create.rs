//! Creating ratings.

use super::aggregate::recalculation_keeps_wf;
use super::bounded::comment_from_vec;
use super::ledger::Ledger;
use super::ledger::precedes_is_reflexive;
use super::ledger::precedes_is_transitive;
use super::pairing::completion_events;
use super::pairing::pair_after;
use super::pairing::record_in_pair;
use super::pallet::Pallet;
use super::types::AccountId;
use super::types::BlockNumber;
use super::types::Error;
use super::types::Event;
use super::types::GroupActivityId;
use super::types::InteractionId;
use super::types::MAX_COMMENT_LENGTH;
use super::types::MAX_PEER_RATINGS;
use super::types::MAX_RATINGS_PER_USER;
use super::types::Rating;
use super::types::RatingAspects;
use super::types::RatingId;
use super::types::RatingType;
use super::types::RatingView;
use super::validation::aspects_acceptable;
use super::validation::is_valid_score;
use super::validation::score_in_range;
use vstd::prelude::*;

verus! {

impl RatingView {
    /// The group activity in whose index the rating belongs, if any: that of
    /// a peer rating made inside an activity.
    pub open spec fn indexed_activity(self) -> Option<GroupActivityId> {
        if self.rating_type == RatingType::PeerToPeer {
            self.group_activity_id
        } else {
            None
        }
    }

    /// The interaction in whose pair the rating belongs, if any: that of a
    /// rating between student and tutor made for an interaction.
    pub open spec fn paired_interaction(self) -> Option<InteractionId> {
        if self.rating_type == RatingType::StudentToTutor || self.rating_type
            == RatingType::TutorToStudent {
            self.interaction_id
        } else {
            None
        }
    }
}

impl Ledger {
    /// The rating that a caller proposes at block `now`, as the ledger would
    /// store it.
    pub open spec fn candidate(
        self,
        who: AccountId,
        now: BlockNumber,
        rated: AccountId,
        score: u8,
        comment: Seq<u8>,
        interaction_id: Option<InteractionId>,
        group_activity_id: Option<GroupActivityId>,
        rating_type: RatingType,
        aspects: Option<RatingAspects>,
    ) -> RatingView {
        RatingView {
            id: self.next_rating_id,
            rater: who,
            rated,
            score,
            comment,
            interaction_id,
            group_activity_id,
            rating_type,
            created_at: now,
            expires_at: now.saturating_add(self.horizon()),
            is_active: true,
            aspects,
        }
    }

    /// Why the ledger refuses a proposed rating, or `None` when it takes it.
    /// The first reason that applies is given.
    pub open spec fn refusal(self, candidate: RatingView) -> Option<Error> {
        if candidate.rater == candidate.rated {
            Some(Error::CannotRateSelf)
        } else if !score_in_range(candidate.score) {
            Some(Error::InvalidRatingScore)
        } else if candidate.comment.len() > self.config.max_comment_length {
            Some(Error::CommentTooLong)
        } else if !aspects_acceptable(candidate.aspects) {
            Some(Error::InvalidAspectScore)
        } else if candidate.comment.len() > MAX_COMMENT_LENGTH {
            Some(Error::CommentTooLong)
        } else if self.next_rating_id == u64::MAX {
            Some(Error::ArithmeticOverflow)
        } else if self.given(candidate.rater).len() >= MAX_RATINGS_PER_USER {
            Some(Error::TooManyRatings)
        } else if self.received(candidate.rated).len() >= MAX_RATINGS_PER_USER {
            Some(Error::TooManyRatings)
        } else if self.peer_refusal(candidate) is Some {
            self.peer_refusal(candidate)
        } else {
            self.pairing_refusal(candidate)
        }
    }

    /// Why the ledger refuses a proposed peer rating, or `None` when it
    /// takes it: a peer that was already rated comes before every other
    /// reason.
    pub open spec fn peer_rating_refusal(self, candidate: RatingView) -> Option<Error> {
        if candidate.group_activity_id matches Some(activity) && self.has_peer_rating(
            candidate.rater,
            candidate.rated,
            activity,
        ) {
            Some(Error::AlreadyRatedPeer)
        } else {
            self.refusal(candidate)
        }
    }

    /// Why a peer rating cannot enter the index of its group activity: the
    /// rater has already rated this peer there, or the index is full.
    pub open spec fn peer_refusal(self, candidate: RatingView) -> Option<Error> {
        match candidate.indexed_activity() {
            Some(activity) => if self.has_peer_rating(
                candidate.rater,
                candidate.rated,
                activity,
            ) {
                Some(Error::AlreadyRatedPeer)
            } else if self.activity(activity).len() >= MAX_PEER_RATINGS {
                Some(Error::TooManyRatings)
            } else {
                None
            },
            None => None,
        }
    }

    /// Why a rating between student and tutor cannot enter the pair of its
    /// interaction: its slot is taken.
    pub open spec fn pairing_refusal(self, candidate: RatingView) -> Option<Error> {
        match candidate.paired_interaction() {
            Some(interaction) => match pair_after(
                self.pair(interaction),
                candidate.rating_type,
                candidate.id,
            ) {
                Ok(_) => None,
                Err(e) => Some(e),
            },
            None => None,
        }
    }

    /// The ledger with `rating` stored and entered in every index it belongs
    /// to.
    pub open spec fn with_rating(self, rating: RatingView) -> Ledger {
        Ledger {
            ratings: self.ratings.insert(rating.id, rating),
            ratings_given: self.ratings_given.insert(
                rating.rater,
                self.given(rating.rater).push(rating.id),
            ),
            ratings_received: self.ratings_received.insert(
                rating.rated,
                self.received(rating.rated).push(rating.id),
            ),
            next_rating_id: (rating.id + 1) as RatingId,
            group_activity_ratings: match rating.indexed_activity() {
                Some(activity) => self.group_activity_ratings.insert(
                    activity,
                    self.activity(activity).push(rating.id),
                ),
                None => self.group_activity_ratings,
            },
            rating_pairs: match rating.paired_interaction() {
                Some(interaction) => self.rating_pairs.insert(
                    interaction,
                    pair_after(self.pair(interaction), rating.rating_type, rating.id)->Ok_0,
                ),
                None => self.rating_pairs,
            },
            ..self
        }
    }

    /// The ledger after `candidate` was created: stored, indexed, and the
    /// reputation of the rated account recalculated.
    pub open spec fn created(self, candidate: RatingView) -> Ledger {
        self.with_rating(candidate).recalculated(candidate.rated, candidate.created_at)
    }

    /// What the ledger tells about the index or pair that `candidate`
    /// entered.
    pub open spec fn entry_events(self, candidate: RatingView) -> Seq<Event> {
        match (candidate.indexed_activity(), candidate.paired_interaction()) {
            (Some(activity), _) => seq![
                Event::PeerRatingCreated {
                    rating_id: candidate.id,
                    group_activity_id: activity,
                    rater: candidate.rater,
                    rated: candidate.rated,
                },
            ],
            (None, Some(interaction)) => completion_events(
                interaction,
                self.with_rating(candidate).pair(interaction),
            ),
            (None, None) => Seq::empty(),
        }
    }

    /// The events of a creation: what the rating entered, then the
    /// recalculation of the rated account, then the creation itself.
    pub open spec fn creation_events(self, candidate: RatingView) -> Seq<Event> {
        (self.entry_events(candidate) + self.with_rating(candidate).recalculation_events(
            candidate.rated,
            candidate.created_at,
        )).push(
            Event::RatingCreated {
                rating_id: candidate.id,
                rater: candidate.rater,
                rated: candidate.rated,
                score: candidate.score,
                rating_type: candidate.rating_type,
                interaction_id: candidate.interaction_id,
            },
        )
    }
}

impl Pallet {
    /// Whether `rater` has rated `rated` inside the group activity.
    pub fn has_peer_rating(
        &self,
        rater: AccountId,
        rated: AccountId,
        group_activity_id: GroupActivityId,
    ) -> (found: bool)
        ensures
            found == self@.has_peer_rating(rater, rated, group_activity_id),
    {
        let ids = self.group_activity_ratings(group_activity_id);
        let mut k: usize = 0;
        while k < ids.len()
            invariant
                k <= ids.len(),
                ids@ == self@.activity(group_activity_id),
                forall|j: int| 0 <= j < k ==> !self@.rates(#[trigger] ids@[j], rater, rated),
            decreases ids.len() - k,
        {
            if let Some(rating) = self.ratings(ids[k]) {
                if rating.rater == rater && rating.rated == rated {
                    return true;
                }
            }
            k = k + 1;
        }
        false
    }

    /// Creates a rating of `rated` by `who` at block `now`, of the given
    /// kind, with optional aspects. Nothing changes when it is refused.
    pub fn create_detailed_rating(
        &mut self,
        who: AccountId,
        now: BlockNumber,
        rated: AccountId,
        score: u8,
        comment: Vec<u8>,
        interaction_id: Option<InteractionId>,
        group_activity_id: Option<GroupActivityId>,
        rating_type: RatingType,
        aspects: Option<RatingAspects>,
    ) -> (r: Result<Vec<Event>, Error>)
        requires
            old(self).wf(),
        ensures
            final(self).wf(),
            old(self)@.precedes(final(self)@),
            ({
                let candidate = old(self)@.candidate(
                    who,
                    now,
                    rated,
                    score,
                    comment@,
                    interaction_id,
                    group_activity_id,
                    rating_type,
                    aspects,
                );
                match r {
                    Ok(events) => {
                        &&& old(self)@.refusal(candidate) is None
                        &&& final(self)@ == old(self)@.created(candidate)
                        &&& events@ == old(self)@.creation_events(candidate)
                    },
                    Err(e) => {
                        &&& old(self)@.refusal(candidate) == Some(e)
                        &&& final(self)@ == old(self)@
                    },
                }
            }),
    {
        let ghost before = self@;
        let ghost candidate = before.candidate(
            who,
            now,
            rated,
            score,
            comment@,
            interaction_id,
            group_activity_id,
            rating_type,
            aspects,
        );
        proof {
            precedes_is_reflexive(before);
        }
        if who == rated {
            return Err(Error::CannotRateSelf);
        }
        if !is_valid_score(score) {
            return Err(Error::InvalidRatingScore);
        }
        let config = self.config();
        if comment.len() > config.max_comment_length as usize {
            return Err(Error::CommentTooLong);
        }
        if let Some(given) = aspects {
            if Self::validate_aspects(&given).is_err() {
                return Err(Error::InvalidAspectScore);
            }
        }
        let bounded_comment = match comment_from_vec(comment) {
            Ok(text) => text,
            Err(_) => {
                return Err(Error::CommentTooLong);
            },
        };
        let rating_id = self.next_rating_id();
        if rating_id == u64::MAX {
            return Err(Error::ArithmeticOverflow);
        }
        if self.count_given(who) >= MAX_RATINGS_PER_USER as usize {
            return Err(Error::TooManyRatings);
        }
        if self.count_received(rated) >= MAX_RATINGS_PER_USER as usize {
            return Err(Error::TooManyRatings);
        }
        match rating_type {
            RatingType::PeerToPeer => {
                if let Some(group_id) = group_activity_id {
                    if self.has_peer_rating(who, rated, group_id) {
                        return Err(Error::AlreadyRatedPeer);
                    }
                    if self.count_activity(group_id) >= MAX_PEER_RATINGS as usize {
                        return Err(Error::TooManyRatings);
                    }
                }
            },
            RatingType::TutorToStudent | RatingType::StudentToTutor => {
                if let Some(interaction_id) = interaction_id {
                    let pair = self.rating_pairs(interaction_id);
                    if let Err(e) = record_in_pair(pair, rating_id, &rating_type) {
                        return Err(e);
                    }
                }
            },
            RatingType::General => {},
        }
        assert(before.refusal(candidate) is None);

        let expires_at = now.saturating_add(config.rating_expiration_blocks as u64);
        let rating = Rating {
            id: rating_id,
            rater: who,
            rated,
            score,
            comment: bounded_comment,
            interaction_id,
            group_activity_id,
            rating_type,
            created_at: now,
            expires_at,
            is_active: true,
            aspects,
        };
        assert(rating@ == candidate);
        self.put_rating(rating);
        self.push_given(who, rating_id);
        self.push_received(rated, rating_id);
        let mut events: Vec<Event> = Vec::new();
        match rating_type {
            RatingType::PeerToPeer => {
                if let Some(group_id) = group_activity_id {
                    self.push_activity(group_id, rating_id);
                    events.push(
                        Event::PeerRatingCreated {
                            rating_id,
                            group_activity_id: group_id,
                            rater: who,
                            rated,
                        },
                    );
                }
            },
            RatingType::TutorToStudent | RatingType::StudentToTutor => {
                if let Some(interaction_id) = interaction_id {
                    // The slot was found empty above, so the pair takes the rating.
                    let recorded = self.handle_bidirectional_rating(
                        interaction_id,
                        rating_id,
                        &rating_type,
                    );
                    events = match recorded {
                        Ok(completed) => completed,
                        Err(_) => unreached(),
                    };
                }
            },
            RatingType::General => {},
        }
        self.advance_rating_id();
        assert(self@ == before.with_rating(candidate));
        assert(events@ == before.entry_events(candidate));
        proof {
            with_rating_keeps_wf(before, candidate);
            recalculation_keeps_wf(before.with_rating(candidate), rated, now);
            precedes_is_transitive(
                before,
                before.with_rating(candidate),
                before.created(candidate),
            );
        }
        let mut recalculated = self.recalculate_reputation(rated, now);
        events.append(&mut recalculated);
        events.push(
            Event::RatingCreated {
                rating_id,
                rater: who,
                rated,
                score,
                rating_type,
                interaction_id,
            },
        );
        Ok(events)
    }

    /// Creates a general rating of `rated` by `who` at block `now`.
    pub fn create_rating(
        &mut self,
        who: AccountId,
        now: BlockNumber,
        rated: AccountId,
        score: u8,
        comment: Vec<u8>,
        interaction_id: Option<InteractionId>,
    ) -> (r: Result<Vec<Event>, Error>)
        requires
            old(self).wf(),
        ensures
            final(self).wf(),
            old(self)@.precedes(final(self)@),
            ({
                let candidate = old(self)@.candidate(
                    who,
                    now,
                    rated,
                    score,
                    comment@,
                    interaction_id,
                    None,
                    RatingType::General,
                    None,
                );
                match r {
                    Ok(events) => {
                        &&& old(self)@.refusal(candidate) is None
                        &&& final(self)@ == old(self)@.created(candidate)
                        &&& events@ == old(self)@.creation_events(candidate)
                    },
                    Err(e) => {
                        &&& old(self)@.refusal(candidate) == Some(e)
                        &&& final(self)@ == old(self)@
                    },
                }
            }),
    {
        self.create_detailed_rating(
            who,
            now,
            rated,
            score,
            comment,
            interaction_id,
            None,
            RatingType::General,
            None,
        )
    }

    /// Creates a rating of the peer `rated` by `who` inside a group activity
    /// at block `now`. A second rating of the same peer in the same activity
    /// is refused before anything else is looked at.
    pub fn create_peer_rating(
        &mut self,
        who: AccountId,
        now: BlockNumber,
        rated: AccountId,
        group_activity_id: GroupActivityId,
        score: u8,
        comment: Vec<u8>,
        aspects: Option<RatingAspects>,
    ) -> (r: Result<Vec<Event>, Error>)
        requires
            old(self).wf(),
        ensures
            final(self).wf(),
            old(self)@.precedes(final(self)@),
            ({
                let candidate = old(self)@.candidate(
                    who,
                    now,
                    rated,
                    score,
                    comment@,
                    None,
                    Some(group_activity_id),
                    RatingType::PeerToPeer,
                    aspects,
                );
                match r {
                    Ok(events) => {
                        &&& old(self)@.peer_rating_refusal(candidate) is None
                        &&& final(self)@ == old(self)@.created(candidate)
                        &&& events@ == old(self)@.creation_events(candidate)
                    },
                    Err(e) => {
                        &&& old(self)@.peer_rating_refusal(candidate) == Some(e)
                        &&& final(self)@ == old(self)@
                    },
                }
            }),
    {
        if self.has_peer_rating(who, rated, group_activity_id) {
            proof {
                precedes_is_reflexive(self@);
            }
            return Err(Error::AlreadyRatedPeer);
        }
        self.create_detailed_rating(
            who,
            now,
            rated,
            score,
            comment,
            None,
            Some(group_activity_id),
            RatingType::PeerToPeer,
            aspects,
        )
    }
}

/// A ledger that takes a rating stays well formed, and keeps all it had.
pub proof fn with_rating_keeps_wf(ledger: Ledger, candidate: RatingView)
    requires
        ledger.wf(),
        candidate.id == ledger.next_rating_id,
        candidate.is_active,
        candidate.expires_at == candidate.created_at.saturating_add(ledger.horizon()),
        ledger.refusal(candidate) is None,
    ensures
        ledger.with_rating(candidate).wf(),
        ledger.precedes(ledger.with_rating(candidate)),
{
    let after = ledger.with_rating(candidate);
    assert(after.ratings_wf());
    with_rating_keeps_indices(ledger, candidate);
    with_rating_keeps_activities(ledger, candidate);
    with_rating_keeps_pairs(ledger, candidate);
    with_rating_keeps_threads(ledger, candidate);
    assert(ledger.precedes(after));
}

proof fn with_rating_keeps_indices(ledger: Ledger, candidate: RatingView)
    requires
        ledger.wf(),
        candidate.id == ledger.next_rating_id,
        ledger.refusal(candidate) is None,
    ensures
        ledger.with_rating(candidate).indices_wf(),
{
    broadcast use vstd::seq_lib::lemma_seq_contains_after_push;

    let after = ledger.with_rating(candidate);
    let id = candidate.id;
    assert(!ledger.ratings.contains_key(id));
    assert forall|who: AccountId| !(#[trigger] ledger.given(who)).contains(id) by {
        if ledger.given(who).contains(id) {
            let k = choose|k: int| 0 <= k < ledger.given(who).len() && ledger.given(who)[k] == id;
            assert(ledger.ratings.contains_key(ledger.given(who)[k]));
        }
    }
    assert forall|who: AccountId| !(#[trigger] ledger.received(who)).contains(id) by {
        if ledger.received(who).contains(id) {
            let k = choose|k: int|
                0 <= k < ledger.received(who).len() && ledger.received(who)[k] == id;
            assert(ledger.ratings.contains_key(ledger.received(who)[k]));
        }
    }
    assert forall|who: AccountId|
        (#[trigger] after.given(who)).len() <= MAX_RATINGS_PER_USER && after.given(
            who,
        ).no_duplicates() by {
        let old_index = ledger.given(who);
        assert(old_index.len() <= MAX_RATINGS_PER_USER && old_index.no_duplicates());
        if who == candidate.rater {
            assert(after.given(who) == old_index.push(id));
            assert(!old_index.contains(id));
        } else {
            assert(after.given(who) == old_index);
        }
    }
    assert forall|who: AccountId|
        (#[trigger] after.received(who)).len() <= MAX_RATINGS_PER_USER && after.received(
            who,
        ).no_duplicates() by {
        let old_index = ledger.received(who);
        assert(old_index.len() <= MAX_RATINGS_PER_USER && old_index.no_duplicates());
        if who == candidate.rated {
            assert(after.received(who) == old_index.push(id));
            assert(!old_index.contains(id));
        } else {
            assert(after.received(who) == old_index);
        }
    }
    // Every identifier in an index is a key of the ratings, so it lies under
    // the next identifier, which is the one appended.
    assert forall|who: AccountId, j: int, k: int|
        0 <= j < k < after.given(who).len() implies #[trigger] after.given(who)[j]
        < #[trigger] after.given(who)[k] by {
        let old_index = ledger.given(who);
        assert(ledger.ratings.contains_key(old_index[j]));
        if k < old_index.len() {
            assert(old_index[j] < old_index[k]);
        }
    }
    assert forall|who: AccountId, j: int, k: int|
        0 <= j < k < after.received(who).len() implies #[trigger] after.received(who)[j]
        < #[trigger] after.received(who)[k] by {
        let old_index = ledger.received(who);
        assert(ledger.ratings.contains_key(old_index[j]));
        if k < old_index.len() {
            assert(old_index[j] < old_index[k]);
        }
    }
    assert forall|who: AccountId, k: int| 0 <= k < after.given(who).len() implies {
        &&& after.ratings.contains_key(#[trigger] after.given(who)[k])
        &&& after.ratings[after.given(who)[k]].rater == who
    } by {
        if k < ledger.given(who).len() {
            assert(after.given(who)[k] == ledger.given(who)[k]);
            assert(ledger.ratings.contains_key(ledger.given(who)[k]));
        }
    }
    assert forall|who: AccountId, k: int| 0 <= k < after.received(who).len() implies {
        &&& after.ratings.contains_key(#[trigger] after.received(who)[k])
        &&& after.ratings[after.received(who)[k]].rated == who
    } by {
        if k < ledger.received(who).len() {
            assert(after.received(who)[k] == ledger.received(who)[k]);
            assert(ledger.ratings.contains_key(ledger.received(who)[k]));
        }
    }
    assert forall|other: RatingId| #[trigger] after.ratings.contains_key(other) implies {
        &&& after.given(after.ratings[other].rater).contains(other)
        &&& after.received(after.ratings[other].rated).contains(other)
    } by {
        if other != id {
            assert(ledger.ratings.contains_key(other));
            let rater = ledger.ratings[other].rater;
            let rated = ledger.ratings[other].rated;
            assert(ledger.given(rater).contains(other));
            assert(ledger.received(rated).contains(other));
            assert(after.given(rater) == if rater == candidate.rater {
                ledger.given(rater).push(id)
            } else {
                ledger.given(rater)
            });
            assert(after.received(rated) == if rated == candidate.rated {
                ledger.received(rated).push(id)
            } else {
                ledger.received(rated)
            });
        } else {
            assert(after.given(candidate.rater) == ledger.given(candidate.rater).push(id));
            assert(after.received(candidate.rated) == ledger.received(candidate.rated).push(id));
        }
    }
}

proof fn with_rating_keeps_activities(ledger: Ledger, candidate: RatingView)
    requires
        ledger.wf(),
        candidate.id == ledger.next_rating_id,
        ledger.refusal(candidate) is None,
    ensures
        ledger.with_rating(candidate).activities_wf(),
{
    broadcast use vstd::seq_lib::lemma_seq_contains_after_push;

    let after = ledger.with_rating(candidate);
    let id = candidate.id;
    assert(!ledger.ratings.contains_key(id));
    assert forall|activity: GroupActivityId|
        #[trigger] after.activity(activity) == if candidate.indexed_activity() == Some(activity) {
            ledger.activity(activity).push(id)
        } else {
            ledger.activity(activity)
        } by {}
    assert forall|activity: GroupActivityId|
        (#[trigger] after.activity(activity)).len() <= MAX_PEER_RATINGS by {
        assert(ledger.activity(activity).len() <= MAX_PEER_RATINGS);
    }
    assert forall|activity: GroupActivityId, j: int, k: int|
        0 <= j < k < after.activity(activity).len() implies #[trigger] after.activity(activity)[j]
        < #[trigger] after.activity(activity)[k] by {
        let old_index = ledger.activity(activity);
        assert(ledger.is_peer_rating_in(old_index[j], activity));
        if k < old_index.len() {
            assert(old_index[j] < old_index[k]);
        }
    }
    assert forall|activity: GroupActivityId, k: int|
        0 <= k < after.activity(activity).len() implies after.is_peer_rating_in(
        #[trigger] after.activity(activity)[k],
        activity,
    ) by {
        if k < ledger.activity(activity).len() {
            assert(ledger.is_peer_rating_in(ledger.activity(activity)[k], activity));
        }
    }
    assert forall|activity: GroupActivityId, j: int, k: int|
        0 <= j < k < after.activity(activity).len() implies {
        let first = after.ratings[#[trigger] after.activity(activity)[j]];
        let second = after.ratings[#[trigger] after.activity(activity)[k]];
        first.rater != second.rater || first.rated != second.rated
    } by {
        let old_index = ledger.activity(activity);
        assert(ledger.is_peer_rating_in(old_index[j], activity));
        if k < old_index.len() {
            assert(ledger.is_peer_rating_in(old_index[k], activity));
        } else {
            assert(!ledger.has_peer_rating(candidate.rater, candidate.rated, activity));
            assert(!ledger.rates(old_index[j], candidate.rater, candidate.rated));
        }
    }
    assert forall|other: RatingId, activity: GroupActivityId| #[trigger]
        after.is_peer_rating_in(other, activity) implies after.activity(activity).contains(
        other,
    ) by {
        if other != id {
            assert(ledger.is_peer_rating_in(other, activity));
            assert(ledger.activity(activity).contains(other));
        }
    }
}

proof fn with_rating_keeps_pairs(ledger: Ledger, candidate: RatingView)
    requires
        ledger.wf(),
        candidate.id == ledger.next_rating_id,
        ledger.refusal(candidate) is None,
    ensures
        ledger.with_rating(candidate).pairs_wf(),
{
    let after = ledger.with_rating(candidate);
    let id = candidate.id;
    assert(!ledger.ratings.contains_key(id));
    assert forall|interaction: InteractionId|
        (#[trigger] after.pair(interaction)).0 matches Some(found) ==> after.is_session_rating_of(
            found,
            RatingType::StudentToTutor,
            interaction,
        ) by {
        if let Some(found) = after.pair(interaction).0 {
            if ledger.pair(interaction).0 == Some(found) {
                assert(ledger.is_session_rating_of(found, RatingType::StudentToTutor, interaction));
            }
        }
    }
    assert forall|interaction: InteractionId|
        (#[trigger] after.pair(interaction)).1 matches Some(found) ==> after.is_session_rating_of(
            found,
            RatingType::TutorToStudent,
            interaction,
        ) by {
        if let Some(found) = after.pair(interaction).1 {
            if ledger.pair(interaction).1 == Some(found) {
                assert(ledger.is_session_rating_of(found, RatingType::TutorToStudent, interaction));
            }
        }
    }
    assert forall|other: RatingId, interaction: InteractionId| #[trigger]
        after.is_session_rating_of(other, RatingType::StudentToTutor, interaction) implies after.pair(
        interaction,
    ).0 == Some(other) by {
        if other != id {
            assert(ledger.is_session_rating_of(other, RatingType::StudentToTutor, interaction));
            assert(ledger.pair(interaction).0 == Some(other));
        }
    }
    assert forall|other: RatingId, interaction: InteractionId| #[trigger]
        after.is_session_rating_of(other, RatingType::TutorToStudent, interaction) implies after.pair(
        interaction,
    ).1 == Some(other) by {
        if other != id {
            assert(ledger.is_session_rating_of(other, RatingType::TutorToStudent, interaction));
            assert(ledger.pair(interaction).1 == Some(other));
        }
    }
}

proof fn with_rating_keeps_threads(ledger: Ledger, candidate: RatingView)
    requires
        ledger.wf(),
        candidate.id == ledger.next_rating_id,
    ensures
        ledger.with_rating(candidate).threads_wf(),
{
    let after = ledger.with_rating(candidate);
    assert(!ledger.ratings.contains_key(candidate.id));
    assert(forall|id: RatingId| after.responses(id) == ledger.responses(id));
    assert forall|id: RatingId, k: int| 0 <= k < after.responses(id).len() implies after.reply_fits(
        id,
        #[trigger] after.responses(id)[k],
    ) by {
        assert(ledger.reply_fits(id, ledger.responses(id)[k]));
    }
}

} // verus!

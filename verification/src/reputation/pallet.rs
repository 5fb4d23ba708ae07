//! The ledger's storage and what can be read from it.

use super::bounded::activity_as_vec;
use super::bounded::activity_ids;
use super::bounded::activity_new;
use super::bounded::activity_try_push;
use super::bounded::comment_bytes;
use super::bounded::index_as_vec;
use super::bounded::index_ids;
use super::bounded::index_new;
use super::bounded::index_try_push;
use super::bounded::thread_as_vec;
use super::bounded::thread_new;
use super::bounded::thread_replies;
use super::bounded::thread_try_push;
use super::ledger::ascending;
use super::ledger::Ledger;
use super::types::AccountId;
use super::types::CommentResponse;
use super::types::CommentResponseView;
use super::types::Config;
use super::types::GroupActivityId;
use super::types::InteractionId;
use super::types::MAX_COMMENT_LENGTH;
use super::types::MAX_COMMENT_RESPONSES;
use super::types::MAX_PEER_RATINGS;
use super::types::MAX_RATINGS_PER_USER;
use super::types::Rating;
use super::types::RatingAspects;
use super::types::RatingId;
use super::types::RatingView;
use super::types::ReputationScore;
use super::types::ResponseId;
use frame_support::BoundedVec;
use frame_support::traits::ConstU32;
use std::collections::HashMap;
use vstd::prelude::*;

verus! {

/// The reputation ledger. Commands take the caller and the current block
/// from the host and hand back the events they raised.
pub struct Pallet {
    pub(super) config: Config,
    pub(super) ratings: HashMap<RatingId, Rating>,
    pub(super) reputation_scores: HashMap<AccountId, ReputationScore>,
    pub(super) ratings_given: HashMap<
        AccountId,
        BoundedVec<RatingId, ConstU32<MAX_RATINGS_PER_USER>>,
    >,
    pub(super) ratings_received: HashMap<
        AccountId,
        BoundedVec<RatingId, ConstU32<MAX_RATINGS_PER_USER>>,
    >,
    pub(super) next_rating_id: RatingId,
    pub(super) comment_responses: HashMap<
        RatingId,
        BoundedVec<CommentResponse, ConstU32<MAX_COMMENT_RESPONSES>>,
    >,
    pub(super) next_response_id: ResponseId,
    pub(super) group_activity_ratings: HashMap<
        GroupActivityId,
        BoundedVec<RatingId, ConstU32<MAX_PEER_RATINGS>>,
    >,
    pub(super) rating_pairs: HashMap<InteractionId, (Option<RatingId>, Option<RatingId>)>,
}

/// The bytes of a stored comment that may be absent.
pub open spec fn stored_bytes(comment: Option<BoundedVec<u8, ConstU32<MAX_COMMENT_LENGTH>>>) -> Option<
    Seq<u8>,
> {
    match comment {
        Some(text) => Some(comment_bytes(text)),
        None => None,
    }
}

/// The ratings of a map, each by its view.
pub(super) closed spec fn ratings_view(stored: Map<RatingId, Rating>) -> Map<RatingId, RatingView> {
    Map::new(|id: RatingId| stored.contains_key(id), |id: RatingId| stored[id]@)
}

/// The identifiers held by each index of a map of account indices.
pub(super) closed spec fn indices_view(
    stored: Map<AccountId, BoundedVec<RatingId, ConstU32<MAX_RATINGS_PER_USER>>>,
) -> Map<AccountId, Seq<RatingId>> {
    Map::new(|who: AccountId| stored.contains_key(who), |who: AccountId| index_ids(stored[who]))
}

/// The replies of a thread, each by its view.
pub(super) closed spec fn thread_view(
    thread: BoundedVec<CommentResponse, ConstU32<MAX_COMMENT_RESPONSES>>,
) -> Seq<CommentResponseView> {
    thread_replies(thread).map_values(|reply: CommentResponse| reply@)
}

/// The replies held by each thread of a map of threads.
pub(super) closed spec fn threads_view(
    stored: Map<RatingId, BoundedVec<CommentResponse, ConstU32<MAX_COMMENT_RESPONSES>>>,
) -> Map<RatingId, Seq<CommentResponseView>> {
    Map::new(|id: RatingId| stored.contains_key(id), |id: RatingId| thread_view(stored[id]))
}

/// The identifiers held by each index of a map of activity indices.
pub(super) closed spec fn activities_view(
    stored: Map<GroupActivityId, BoundedVec<RatingId, ConstU32<MAX_PEER_RATINGS>>>,
) -> Map<GroupActivityId, Seq<RatingId>> {
    Map::new(
        |activity: GroupActivityId| stored.contains_key(activity),
        |activity: GroupActivityId| activity_ids(stored[activity]),
    )
}

impl View for Pallet {
    type V = Ledger;

    closed spec fn view(&self) -> Ledger {
        Ledger {
            config: self.config,
            ratings: ratings_view(self.ratings@),
            reputation_scores: self.reputation_scores@,
            ratings_given: indices_view(self.ratings_given@),
            ratings_received: indices_view(self.ratings_received@),
            next_rating_id: self.next_rating_id,
            comment_responses: threads_view(self.comment_responses@),
            next_response_id: self.next_response_id,
            group_activity_ratings: activities_view(self.group_activity_ratings@),
            rating_pairs: self.rating_pairs@,
        }
    }
}

impl Pallet {
    /// What holds of the ledger between commands.
    pub open spec fn wf(&self) -> bool {
        self@.wf()
    }

    /// A ledger without ratings, set up with the given limits.
    pub fn new(config: Config) -> (pallet: Pallet)
        ensures
            pallet.wf(),
            pallet@ == Ledger::empty(config),
    {
        let pallet = Pallet {
            config,
            ratings: HashMap::new(),
            reputation_scores: HashMap::new(),
            ratings_given: HashMap::new(),
            ratings_received: HashMap::new(),
            next_rating_id: 1,
            comment_responses: HashMap::new(),
            next_response_id: 1,
            group_activity_ratings: HashMap::new(),
            rating_pairs: HashMap::new(),
        };
        assert(pallet@.ratings =~= Map::empty());
        assert(pallet@.ratings_given =~= Map::empty());
        assert(pallet@.ratings_received =~= Map::empty());
        assert(pallet@.comment_responses =~= Map::empty());
        assert(pallet@.group_activity_ratings =~= Map::empty());
        pallet
    }

    /// The limits the ledger was set up with.
    pub fn config(&self) -> (config: Config)
        ensures
            config == self@.config,
    {
        self.config
    }

    /// The rating with the given identifier.
    pub fn ratings(&self, id: RatingId) -> (rating: Option<&Rating>)
        ensures
            match rating {
                Some(found) => self@.ratings.contains_key(id) && found@ == self@.ratings[id],
                None => !self@.ratings.contains_key(id),
            },
    {
        self.ratings.get(&id)
    }

    /// The identifier the next rating gets.
    pub fn next_rating_id(&self) -> (id: RatingId)
        ensures
            id == self@.next_rating_id,
    {
        self.next_rating_id
    }

    /// The identifier the next reply gets.
    pub fn next_response_id(&self) -> (id: ResponseId)
        ensures
            id == self@.next_response_id,
    {
        self.next_response_id
    }

    /// The last computed standing of `who`; all zero before the first
    /// recalculation.
    pub fn reputation_scores(&self, who: AccountId) -> (score: ReputationScore)
        ensures
            score == self@.reputation(who),
    {
        match self.reputation_scores.get(&who) {
            Some(score) => *score,
            None => ReputationScore::default(),
        }
    }

    /// The ratings that `who` gave, oldest first.
    pub fn ratings_given(&self, who: AccountId) -> (ids: Vec<RatingId>)
        ensures
            ids@ == self@.given(who),
            self.wf() ==> ascending(ids@),
    {
        match self.ratings_given.get(&who) {
            Some(index) => copy_ids(index_as_vec(index)),
            None => Vec::new(),
        }
    }

    /// The ratings that `who` received, oldest first.
    pub fn ratings_received(&self, who: AccountId) -> (ids: Vec<RatingId>)
        ensures
            ids@ == self@.received(who),
            self.wf() ==> ascending(ids@),
    {
        match self.ratings_received.get(&who) {
            Some(index) => copy_ids(index_as_vec(index)),
            None => Vec::new(),
        }
    }

    /// The peer ratings made in a group activity, oldest first.
    pub fn group_activity_ratings(&self, activity: GroupActivityId) -> (ids: Vec<RatingId>)
        ensures
            ids@ == self@.activity(activity),
            self.wf() ==> ascending(ids@),
    {
        match self.group_activity_ratings.get(&activity) {
            Some(index) => copy_ids(activity_as_vec(index)),
            None => Vec::new(),
        }
    }

    /// The two slots of an interaction; both empty until a party rates.
    pub fn rating_pairs(&self, interaction: InteractionId) -> (pair: (
        Option<RatingId>,
        Option<RatingId>,
    ))
        ensures
            pair == self@.pair(interaction),
    {
        match self.rating_pairs.get(&interaction) {
            Some(pair) => *pair,
            None => (None, None),
        }
    }

    /// The replies to the comment of rating `id`, oldest first.
    pub fn comment_responses(&self, id: RatingId) -> (replies: &[CommentResponse])
        ensures
            replies@.map_values(|reply: CommentResponse| reply@) == self@.responses(id),
    {
        match self.comment_responses.get(&id) {
            Some(thread) => thread_as_vec(thread).as_slice(),
            None => {
                assert(Seq::<CommentResponse>::empty().map_values(|reply: CommentResponse| reply@)
                    =~= Seq::<CommentResponseView>::empty());
                &[]
            },
        }
    }

    /// Switches rating `id` off.
    pub(super) fn deactivate(&mut self, id: RatingId)
        requires
            old(self)@.ratings.contains_key(id),
        ensures
            final(self)@ == (Ledger {
                ratings: old(self)@.ratings.insert(id, old(self)@.ratings[id].expired()),
                ..old(self)@
            }),
    {
        let found = self.ratings.remove(&id);
        let mut rating = found.unwrap();
        rating.is_active = false;
        self.ratings.insert(id, rating);
        assert(self@.ratings =~= old(self)@.ratings.insert(id, old(self)@.ratings[id].expired()));
    }

    /// Stores `rating` under its identifier.
    pub(super) fn put_rating(&mut self, rating: Rating)
        ensures
            final(self)@ == (Ledger {
                ratings: old(self)@.ratings.insert(rating.id, rating@),
                ..old(self)@
            }),
    {
        let ghost id = rating.id;
        let ghost view = rating@;
        self.ratings.insert(rating.id, rating);
        assert(self@.ratings =~= old(self)@.ratings.insert(id, view));
    }

    /// Replaces what rating `id` says: its score, and its comment and
    /// aspects where new ones are given.
    pub(super) fn revise_rating(
        &mut self,
        id: RatingId,
        score: u8,
        comment: Option<BoundedVec<u8, ConstU32<MAX_COMMENT_LENGTH>>>,
        aspects: Option<RatingAspects>,
    )
        requires
            old(self)@.ratings.contains_key(id),
        ensures
            final(self)@ == (Ledger {
                ratings: old(self)@.ratings.insert(
                    id,
                    old(self)@.ratings[id].revised(score, stored_bytes(comment), aspects),
                ),
                ..old(self)@
            }),
    {
        let ghost revised = old(self)@.ratings[id].revised(score, stored_bytes(comment), aspects);
        let found = self.ratings.remove(&id);
        let mut rating = found.unwrap();
        rating.score = score;
        if let Some(text) = comment {
            rating.comment = text;
        }
        if aspects.is_some() {
            rating.aspects = aspects;
        }
        assert(rating@ == revised);
        self.ratings.insert(id, rating);
        assert(self@.ratings =~= old(self)@.ratings.insert(id, revised));
    }

    /// Moves the rating counter on by one.
    pub(super) fn advance_rating_id(&mut self)
        requires
            old(self)@.next_rating_id < u64::MAX,
        ensures
            final(self)@ == (Ledger {
                next_rating_id: (old(self)@.next_rating_id + 1) as RatingId,
                ..old(self)@
            }),
    {
        self.next_rating_id = self.next_rating_id + 1;
    }

    /// Moves the reply counter on by one.
    pub(super) fn advance_response_id(&mut self)
        requires
            old(self)@.next_response_id < u64::MAX,
        ensures
            final(self)@ == (Ledger {
                next_response_id: (old(self)@.next_response_id + 1) as ResponseId,
                ..old(self)@
            }),
    {
        self.next_response_id = self.next_response_id + 1;
    }

    /// How many ratings `who` gave.
    pub(super) fn count_given(&self, who: AccountId) -> (n: usize)
        ensures
            n == self@.given(who).len(),
    {
        match self.ratings_given.get(&who) {
            Some(index) => index_as_vec(index).len(),
            None => 0,
        }
    }

    /// How many ratings `who` received.
    pub(super) fn count_received(&self, who: AccountId) -> (n: usize)
        ensures
            n == self@.received(who).len(),
    {
        match self.ratings_received.get(&who) {
            Some(index) => index_as_vec(index).len(),
            None => 0,
        }
    }

    /// How many peer ratings were made in a group activity.
    pub(super) fn count_activity(&self, activity: GroupActivityId) -> (n: usize)
        ensures
            n == self@.activity(activity).len(),
    {
        match self.group_activity_ratings.get(&activity) {
            Some(index) => activity_as_vec(index).len(),
            None => 0,
        }
    }

    /// How many replies the comment of rating `id` has.
    pub(super) fn count_responses(&self, id: RatingId) -> (n: usize)
        ensures
            n == self@.responses(id).len(),
    {
        match self.comment_responses.get(&id) {
            Some(thread) => thread_as_vec(thread).len(),
            None => 0,
        }
    }

    /// Appends `id` to the ratings that `who` gave.
    pub(super) fn push_given(&mut self, who: AccountId, id: RatingId)
        requires
            old(self)@.given(who).len() < MAX_RATINGS_PER_USER,
        ensures
            final(self)@ == (Ledger {
                ratings_given: old(self)@.ratings_given.insert(
                    who,
                    old(self)@.given(who).push(id),
                ),
                ..old(self)@
            }),
    {
        let mut index = match self.ratings_given.remove(&who) {
            Some(index) => index,
            None => index_new(),
        };
        let _ = index_try_push(&mut index, id);
        self.ratings_given.insert(who, index);
        assert(self@.ratings_given =~= old(self)@.ratings_given.insert(
            who,
            old(self)@.given(who).push(id),
        ));
    }

    /// Appends `id` to the ratings that `who` received.
    pub(super) fn push_received(&mut self, who: AccountId, id: RatingId)
        requires
            old(self)@.received(who).len() < MAX_RATINGS_PER_USER,
        ensures
            final(self)@ == (Ledger {
                ratings_received: old(self)@.ratings_received.insert(
                    who,
                    old(self)@.received(who).push(id),
                ),
                ..old(self)@
            }),
    {
        let mut index = match self.ratings_received.remove(&who) {
            Some(index) => index,
            None => index_new(),
        };
        let _ = index_try_push(&mut index, id);
        self.ratings_received.insert(who, index);
        assert(self@.ratings_received =~= old(self)@.ratings_received.insert(
            who,
            old(self)@.received(who).push(id),
        ));
    }

    /// Appends `id` to the peer ratings of a group activity.
    pub(super) fn push_activity(&mut self, activity: GroupActivityId, id: RatingId)
        requires
            old(self)@.activity(activity).len() < MAX_PEER_RATINGS,
        ensures
            final(self)@ == (Ledger {
                group_activity_ratings: old(self)@.group_activity_ratings.insert(
                    activity,
                    old(self)@.activity(activity).push(id),
                ),
                ..old(self)@
            }),
    {
        let mut index = match self.group_activity_ratings.remove(&activity) {
            Some(index) => index,
            None => activity_new(),
        };
        let _ = activity_try_push(&mut index, id);
        self.group_activity_ratings.insert(activity, index);
        assert(self@.group_activity_ratings =~= old(self)@.group_activity_ratings.insert(
            activity,
            old(self)@.activity(activity).push(id),
        ));
    }

    /// Appends `reply` to the thread of rating `id`.
    pub(super) fn push_response(&mut self, id: RatingId, reply: CommentResponse)
        requires
            old(self)@.responses(id).len() < MAX_COMMENT_RESPONSES,
        ensures
            final(self)@ == (Ledger {
                comment_responses: old(self)@.comment_responses.insert(
                    id,
                    old(self)@.responses(id).push(reply@),
                ),
                ..old(self)@
            }),
    {
        let ghost view = reply@;
        let mut thread = match self.comment_responses.remove(&id) {
            Some(thread) => thread,
            None => thread_new(),
        };
        assert(thread_view(thread) =~= old(self)@.responses(id));
        let _ = thread_try_push(&mut thread, reply);
        assert(thread_view(thread) =~= old(self)@.responses(id).push(view));
        self.comment_responses.insert(id, thread);
        assert(self@.comment_responses =~= old(self)@.comment_responses.insert(
            id,
            old(self)@.responses(id).push(view),
        ));
    }

    /// Sets the two slots of an interaction.
    pub(super) fn put_pair(
        &mut self,
        interaction: InteractionId,
        pair: (Option<RatingId>, Option<RatingId>),
    )
        ensures
            final(self)@ == (Ledger {
                rating_pairs: old(self)@.rating_pairs.insert(interaction, pair),
                ..old(self)@
            }),
    {
        self.rating_pairs.insert(interaction, pair);
    }

    /// Records the standing of `who`.
    pub(super) fn store_reputation(&mut self, who: AccountId, score: ReputationScore)
        ensures
            final(self)@ == (Ledger {
                reputation_scores: old(self)@.reputation_scores.insert(who, score),
                ..old(self)@
            }),
    {
        self.reputation_scores.insert(who, score);
    }
}

/// A copy of a list of rating identifiers.
fn copy_ids(ids: &Vec<RatingId>) -> (copy: Vec<RatingId>)
    ensures
        copy@ == ids@,
{
    let mut copy: Vec<RatingId> = Vec::new();
    let mut k: usize = 0;
    while k < ids.len()
        invariant
            k <= ids.len(),
            copy@ == ids@.take(k as int),
        decreases ids.len() - k,
    {
        copy.push(ids[k]);
        k = k + 1;
        assert(ids@.take(k as int) =~= ids@.take(k as int - 1).push(ids@[k as int - 1]));
    }
    assert(ids@.take(ids.len() as int) =~= ids@);
    copy
}

} // verus!

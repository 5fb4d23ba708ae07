//! The ledger as a mathematical value: what it holds and what holds of it.
//!
//! Every command of the pallet is stated as a function from one `Ledger` to
//! the next; those functions stand beside the commands they describe.

use super::types::AccountId;
use super::types::BlockNumber;
use super::types::CommentResponseView;
use super::types::Config;
use super::types::GroupActivityId;
use super::types::InteractionId;
use super::types::MAX_COMMENT_LENGTH;
use super::types::MAX_COMMENT_RESPONSES;
use super::types::MAX_PEER_RATINGS;
use super::types::MAX_RATINGS_PER_USER;
use super::types::RatingId;
use super::types::RatingType;
use super::types::RatingView;
use super::types::ReputationScore;
use super::types::ResponseId;
use vstd::prelude::*;

verus! {

/// The two slots of an interaction: the student's rating of the tutor, and
/// the tutor's rating of the student.
pub type RatingPair = (Option<RatingId>, Option<RatingId>);

/// Whether each identifier of the list is larger than those before it.
pub open spec fn ascending(ids: Seq<RatingId>) -> bool {
    forall|j: int, k: int| 0 <= j < k < ids.len() ==> #[trigger] ids[j] < #[trigger] ids[k]
}

/// Everything the ledger holds.
pub struct Ledger {
    /// The limits the ledger was set up with.
    pub config: Config,
    /// Every rating ever created, by identifier.
    pub ratings: Map<RatingId, RatingView>,
    /// The last computed standing of each account.
    pub reputation_scores: Map<AccountId, ReputationScore>,
    /// For each account, the ratings it gave, oldest first.
    pub ratings_given: Map<AccountId, Seq<RatingId>>,
    /// For each account, the ratings it received, oldest first.
    pub ratings_received: Map<AccountId, Seq<RatingId>>,
    /// The identifier the next rating gets.
    pub next_rating_id: RatingId,
    /// For each rating, the replies to its comment, oldest first.
    pub comment_responses: Map<RatingId, Seq<CommentResponseView>>,
    /// The identifier the next reply gets.
    pub next_response_id: ResponseId,
    /// For each group activity, the peer ratings made in it, oldest first.
    pub group_activity_ratings: Map<GroupActivityId, Seq<RatingId>>,
    /// For each interaction, the ratings its two parties gave each other.
    pub rating_pairs: Map<InteractionId, RatingPair>,
}

impl RatingView {
    /// The same rating, switched off.
    pub open spec fn expired(self) -> RatingView {
        RatingView { is_active: false, ..self }
    }

    /// Whether `other` is a rating between the same accounts, for the same
    /// interaction, activity and period.
    pub open spec fn same_frame(self, other: RatingView) -> bool {
        &&& other.id == self.id
        &&& other.rater == self.rater
        &&& other.rated == self.rated
        &&& other.interaction_id == self.interaction_id
        &&& other.group_activity_id == self.group_activity_id
        &&& other.rating_type == self.rating_type
        &&& other.created_at == self.created_at
        &&& other.expires_at == self.expires_at
    }

    /// Whether `later` can be this rating at a later time: the same rating
    /// between the same accounts over the same period, and not switched on
    /// again.
    pub open spec fn persists_as(self, later: RatingView) -> bool {
        &&& later.id == self.id
        &&& later.rater == self.rater
        &&& later.rated == self.rated
        &&& later.interaction_id == self.interaction_id
        &&& later.group_activity_id == self.group_activity_id
        &&& later.rating_type == self.rating_type
        &&& later.created_at == self.created_at
        &&& later.expires_at == self.expires_at
        &&& later.is_active ==> self.is_active
    }
}

impl Ledger {
    /// A ledger without ratings.
    pub open spec fn empty(config: Config) -> Ledger {
        Ledger {
            config,
            ratings: Map::empty(),
            reputation_scores: Map::empty(),
            ratings_given: Map::empty(),
            ratings_received: Map::empty(),
            next_rating_id: 1,
            comment_responses: Map::empty(),
            next_response_id: 1,
            group_activity_ratings: Map::empty(),
            rating_pairs: Map::empty(),
        }
    }

    /// The expiration period, in blocks.
    pub open spec fn horizon(self) -> BlockNumber {
        self.config.rating_expiration_blocks as BlockNumber
    }

    /// The ratings that `who` gave, oldest first.
    pub open spec fn given(self, who: AccountId) -> Seq<RatingId> {
        if self.ratings_given.contains_key(who) {
            self.ratings_given[who]
        } else {
            Seq::empty()
        }
    }

    /// The ratings that `who` received, oldest first.
    pub open spec fn received(self, who: AccountId) -> Seq<RatingId> {
        if self.ratings_received.contains_key(who) {
            self.ratings_received[who]
        } else {
            Seq::empty()
        }
    }

    /// The replies to the comment of rating `id`, oldest first.
    pub open spec fn responses(self, id: RatingId) -> Seq<CommentResponseView> {
        if self.comment_responses.contains_key(id) {
            self.comment_responses[id]
        } else {
            Seq::empty()
        }
    }

    /// The peer ratings made in a group activity, oldest first.
    pub open spec fn activity(self, activity: GroupActivityId) -> Seq<RatingId> {
        if self.group_activity_ratings.contains_key(activity) {
            self.group_activity_ratings[activity]
        } else {
            Seq::empty()
        }
    }

    /// The two slots of an interaction; both empty until a party rates.
    pub open spec fn pair(self, interaction: InteractionId) -> RatingPair {
        if self.rating_pairs.contains_key(interaction) {
            self.rating_pairs[interaction]
        } else {
            (None, None)
        }
    }

    /// The last computed standing of `who`; all zero before the first
    /// recalculation.
    pub open spec fn reputation(self, who: AccountId) -> ReputationScore {
        if self.reputation_scores.contains_key(who) {
            self.reputation_scores[who]
        } else {
            ReputationScore::unrated()
        }
    }

    /// Whether rating `id` exists and is a rating of `rated` by `rater`.
    pub open spec fn rates(self, id: RatingId, rater: AccountId, rated: AccountId) -> bool {
        &&& self.ratings.contains_key(id)
        &&& self.ratings[id].rater == rater
        &&& self.ratings[id].rated == rated
    }

    /// Whether `rater` has rated `rated` inside the group activity.
    pub open spec fn has_peer_rating(
        self,
        rater: AccountId,
        rated: AccountId,
        activity: GroupActivityId,
    ) -> bool {
        exists|k: int|
            0 <= k < self.activity(activity).len() && self.rates(
                #[trigger] self.activity(activity)[k],
                rater,
                rated,
            )
    }

    /// Whether rating `id` is a peer rating made inside the group activity.
    pub open spec fn is_peer_rating_in(self, id: RatingId, activity: GroupActivityId) -> bool {
        &&& self.ratings.contains_key(id)
        &&& self.ratings[id].rating_type == RatingType::PeerToPeer
        &&& self.ratings[id].group_activity_id == Some(activity)
    }

    /// Whether rating `id` is a rating of the given direction for the
    /// interaction.
    pub open spec fn is_session_rating_of(
        self,
        id: RatingId,
        direction: RatingType,
        interaction: InteractionId,
    ) -> bool {
        &&& self.ratings.contains_key(id)
        &&& self.ratings[id].rating_type == direction
        &&& self.ratings[id].interaction_id == Some(interaction)
    }

    /// The ratings are numbered from 1 without a gap, each is valid, and each
    /// expires one expiration period after its creation.
    pub open spec fn ratings_wf(self) -> bool {
        &&& 1 <= self.next_rating_id
        &&& forall|id: RatingId| #[trigger]
            self.ratings.contains_key(id) <==> 1 <= id < self.next_rating_id
        &&& forall|id: RatingId| #[trigger]
            self.ratings.contains_key(id) ==> {
                &&& self.ratings[id].id == id
                &&& self.ratings[id].valid()
                &&& self.ratings[id].expires_at == self.ratings[id].created_at.saturating_add(
                    self.horizon(),
                )
            }
    }

    /// The two indices by account hold exactly the ratings an account gave
    /// and received, each once and by ascending identifier, and none holds
    /// more than `MAX_RATINGS_PER_USER`.
    pub open spec fn indices_wf(self) -> bool {
        &&& forall|who: AccountId|
            (#[trigger] self.given(who)).len() <= MAX_RATINGS_PER_USER && self.given(
                who,
            ).no_duplicates()
        &&& forall|who: AccountId|
            (#[trigger] self.received(who)).len() <= MAX_RATINGS_PER_USER && self.received(
                who,
            ).no_duplicates()
        &&& forall|who: AccountId, j: int, k: int|
            0 <= j < k < self.given(who).len() ==> #[trigger] self.given(who)[j]
                < #[trigger] self.given(who)[k]
        &&& forall|who: AccountId, j: int, k: int|
            0 <= j < k < self.received(who).len() ==> #[trigger] self.received(who)[j]
                < #[trigger] self.received(who)[k]
        &&& forall|who: AccountId, k: int|
            0 <= k < self.given(who).len() ==> {
                &&& self.ratings.contains_key(#[trigger] self.given(who)[k])
                &&& self.ratings[self.given(who)[k]].rater == who
            }
        &&& forall|who: AccountId, k: int|
            0 <= k < self.received(who).len() ==> {
                &&& self.ratings.contains_key(#[trigger] self.received(who)[k])
                &&& self.ratings[self.received(who)[k]].rated == who
            }
        &&& forall|id: RatingId| #[trigger]
            self.ratings.contains_key(id) ==> {
                &&& self.given(self.ratings[id].rater).contains(id)
                &&& self.received(self.ratings[id].rated).contains(id)
            }
    }

    /// The index of a group activity holds exactly the peer ratings made in
    /// it, each once and by ascending identifier, at most `MAX_PEER_RATINGS`
    /// of them, and no two of them by the same rater about the same peer.
    pub open spec fn activities_wf(self) -> bool {
        &&& forall|activity: GroupActivityId|
            (#[trigger] self.activity(activity)).len() <= MAX_PEER_RATINGS
        &&& forall|activity: GroupActivityId, j: int, k: int|
            0 <= j < k < self.activity(activity).len() ==> #[trigger] self.activity(activity)[j]
                < #[trigger] self.activity(activity)[k]
        &&& forall|activity: GroupActivityId, k: int|
            0 <= k < self.activity(activity).len() ==> self.is_peer_rating_in(
                #[trigger] self.activity(activity)[k],
                activity,
            )
        &&& forall|activity: GroupActivityId, j: int, k: int|
            0 <= j < k < self.activity(activity).len() ==> {
                let first = self.ratings[#[trigger] self.activity(activity)[j]];
                let second = self.ratings[#[trigger] self.activity(activity)[k]];
                first.rater != second.rater || first.rated != second.rated
            }
        &&& forall|id: RatingId, activity: GroupActivityId| #[trigger]
            self.is_peer_rating_in(id, activity) ==> self.activity(activity).contains(id)
    }

    /// A slot of an interaction holds the one rating of that direction made
    /// for the interaction, and is empty while there is none.
    pub open spec fn pairs_wf(self) -> bool {
        &&& forall|interaction: InteractionId|
            (#[trigger] self.pair(interaction)).0 matches Some(id) ==> self.is_session_rating_of(
                id,
                RatingType::StudentToTutor,
                interaction,
            )
        &&& forall|interaction: InteractionId|
            (#[trigger] self.pair(interaction)).1 matches Some(id) ==> self.is_session_rating_of(
                id,
                RatingType::TutorToStudent,
                interaction,
            )
        &&& forall|id: RatingId, interaction: InteractionId| #[trigger]
            self.is_session_rating_of(id, RatingType::StudentToTutor, interaction)
                ==> self.pair(interaction).0 == Some(id)
        &&& forall|id: RatingId, interaction: InteractionId| #[trigger]
            self.is_session_rating_of(id, RatingType::TutorToStudent, interaction)
                ==> self.pair(interaction).1 == Some(id)
    }

    /// Whether `who` is one of the two parties of rating `id`.
    pub open spec fn is_party(self, id: RatingId, who: AccountId) -> bool {
        self.ratings[id].rater == who || self.ratings[id].rated == who
    }

    /// Whether `reply` can stand in the thread of rating `id`.
    pub open spec fn reply_fits(self, id: RatingId, reply: CommentResponseView) -> bool {
        &&& self.ratings.contains_key(id)
        &&& self.is_party(id, reply.responder)
        &&& 1 <= reply.id < self.next_response_id
        &&& reply.content.len() <= MAX_COMMENT_LENGTH
    }

    /// A thread belongs to a rating, holds no more replies than the ledger
    /// allows, and each reply in it was written by a party of the rating and
    /// carries a larger identifier than the replies before it. No two
    /// replies of the ledger carry the same identifier.
    pub open spec fn threads_wf(self) -> bool {
        &&& 1 <= self.next_response_id
        &&& forall|id: RatingId|
            (#[trigger] self.responses(id)).len() <= MAX_COMMENT_RESPONSES && self.responses(
                id,
            ).len() <= self.config.max_comment_responses
        &&& forall|id: RatingId, k: int|
            0 <= k < self.responses(id).len() ==> self.reply_fits(
                id,
                #[trigger] self.responses(id)[k],
            )
        &&& forall|id: RatingId, j: int, k: int|
            0 <= j < k < self.responses(id).len() ==> (#[trigger] self.responses(id)[j]).id < (
            #[trigger] self.responses(id)[k]).id
        &&& forall|first: RatingId, j: int, second: RatingId, k: int|
            0 <= j < self.responses(first).len() && 0 <= k < self.responses(second).len() && (
            #[trigger] self.responses(first)[j]).id == (#[trigger] self.responses(second)[k]).id
                ==> first == second && j == k
    }

    /// What holds of every ledger that the pallet's commands can reach.
    pub open spec fn wf(self) -> bool {
        &&& self.ratings_wf()
        &&& self.indices_wf()
        &&& self.activities_wf()
        &&& self.pairs_wf()
        &&& self.threads_wf()
    }

    /// Whether `later` can follow this ledger: the limits are the same, no
    /// rating was dropped or switched on again, no counter went back, and
    /// nothing that was recorded about a rating was taken away.
    pub open spec fn precedes(self, later: Ledger) -> bool {
        &&& later.config == self.config
        &&& self.next_rating_id <= later.next_rating_id
        &&& self.next_response_id <= later.next_response_id
        &&& forall|id: RatingId| #[trigger]
            self.ratings.contains_key(id) ==> later.ratings.contains_key(id)
                && self.ratings[id].persists_as(later.ratings[id])
        &&& forall|who: AccountId| self.given(who).is_prefix_of(#[trigger] later.given(who))
        &&& forall|who: AccountId| self.received(who).is_prefix_of(#[trigger] later.received(who))
        &&& forall|id: RatingId| self.responses(id).is_prefix_of(#[trigger] later.responses(id))
        &&& forall|activity: GroupActivityId|
            self.activity(activity).is_prefix_of(#[trigger] later.activity(activity))
        &&& forall|interaction: InteractionId|
            self.pair(interaction).0 is Some ==> (#[trigger] later.pair(interaction)).0
                == self.pair(interaction).0
        &&& forall|interaction: InteractionId|
            self.pair(interaction).1 is Some ==> (#[trigger] later.pair(interaction)).1
                == self.pair(interaction).1
    }
}

/// Every ledger can follow itself.
pub proof fn precedes_is_reflexive(ledger: Ledger)
    ensures
        ledger.precedes(ledger),
{
}

/// What follows a ledger that follows another, follows that one too.
pub proof fn precedes_is_transitive(first: Ledger, second: Ledger, third: Ledger)
    requires
        first.precedes(second),
        second.precedes(third),
    ensures
        first.precedes(third),
{
    assert forall|who: AccountId| first.given(who).is_prefix_of(#[trigger] third.given(who)) by {
        assert(first.given(who).is_prefix_of(second.given(who)));
    }
    assert forall|who: AccountId|
        first.received(who).is_prefix_of(#[trigger] third.received(who)) by {
        assert(first.received(who).is_prefix_of(second.received(who)));
    }
    assert forall|id: RatingId| first.responses(id).is_prefix_of(#[trigger] third.responses(id)) by {
        assert(first.responses(id).is_prefix_of(second.responses(id)));
    }
    assert forall|activity: GroupActivityId|
        first.activity(activity).is_prefix_of(#[trigger] third.activity(activity)) by {
        assert(first.activity(activity).is_prefix_of(second.activity(activity)));
    }
    assert forall|interaction: InteractionId|
        first.pair(interaction).0 is Some implies (#[trigger] third.pair(interaction)).0
            == first.pair(interaction).0 by {
        assert(second.pair(interaction).0 == first.pair(interaction).0);
    }
    assert forall|interaction: InteractionId|
        first.pair(interaction).1 is Some implies (#[trigger] third.pair(interaction)).1
            == first.pair(interaction).1 by {
        assert(second.pair(interaction).1 == first.pair(interaction).1);
    }
}

/// A ledger stays well formed when stored ratings change in what they say
/// (score, comment, aspects, activity) and standings are replaced, while
/// everything else stays as it is.
pub proof fn content_change_keeps_wf(before: Ledger, after: Ledger)
    requires
        before.wf(),
        after == (Ledger {
            ratings: after.ratings,
            reputation_scores: after.reputation_scores,
            ..before
        }),
        forall|id: RatingId|
            before.ratings.contains_key(id) <==> #[trigger] after.ratings.contains_key(id),
        forall|id: RatingId| #[trigger]
            before.ratings.contains_key(id) ==> after.ratings[id].valid()
                && before.ratings[id].same_frame(after.ratings[id]),
    ensures
        after.wf(),
{
    assert(after.ratings_wf());
    assert(forall|who: AccountId| after.given(who) == before.given(who));
    assert(forall|who: AccountId| after.received(who) == before.received(who));
    assert(after.indices_wf());
    assert(forall|activity: GroupActivityId| after.activity(activity) == before.activity(activity));
    assert(forall|id: RatingId, activity: GroupActivityId|
        after.is_peer_rating_in(id, activity) == before.is_peer_rating_in(id, activity));
    assert(after.activities_wf());
    assert(forall|interaction: InteractionId| after.pair(interaction) == before.pair(interaction));
    assert(forall|id: RatingId, direction: RatingType, interaction: InteractionId|
        after.is_session_rating_of(id, direction, interaction) == before.is_session_rating_of(
            id,
            direction,
            interaction,
        ));
    assert(after.pairs_wf());
    assert(forall|id: RatingId| after.responses(id) == before.responses(id));
    assert(forall|id: RatingId, reply: CommentResponseView|
        before.reply_fits(id, reply) ==> after.reply_fits(id, reply));
    assert(after.threads_wf());
}

} // verus!

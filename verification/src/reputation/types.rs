//! The records the ledger keeps and hands out, and their mathematical views.

use super::bounded::comment_bytes;
use frame_support::BoundedVec;
use frame_support::traits::ConstU32;
use vstd::prelude::*;

verus! {

/// Identity of a participant.
pub type AccountId = u64;

/// Logical time, counted in blocks.
pub type BlockNumber = u64;

/// Identifier of a rating; the first rating gets 1.
pub type RatingId = u64;

/// Identifier of a learning interaction, issued elsewhere.
pub type InteractionId = u64;

/// Identifier of a reply to a rating's comment; the first reply gets 1.
pub type ResponseId = u64;

/// Identifier of a group activity, issued elsewhere.
pub type GroupActivityId = u64;

/// Blocks after which a rating expires: thirty days of six-second blocks.
pub const RATING_EXPIRATION_BLOCKS: u32 = 432_000;

/// Highest score a rating may carry.
pub const MAX_RATING_SCORE: u8 = 5;

/// Lowest score a rating may carry.
pub const MIN_RATING_SCORE: u8 = 1;

/// Longest comment or reply that can be stored, in bytes.
pub const MAX_COMMENT_LENGTH: u32 = 500;

/// Most ratings one account can give, and most it can receive.
pub const MAX_RATINGS_PER_USER: u32 = 1000;

/// Most replies one rating's comment can collect.
pub const MAX_COMMENT_RESPONSES: u32 = 10;

/// Most peer ratings one group activity can collect.
pub const MAX_PEER_RATINGS: u32 = 50;

/// The limits a ledger is set up with.
#[derive(Clone, Copy, PartialEq, Eq, Debug)]
pub struct Config {
    /// Longest comment or reply accepted from a caller, in bytes.
    pub max_comment_length: u32,
    /// Blocks between a rating's creation and its expiry.
    pub rating_expiration_blocks: u32,
    /// Most replies accepted for one rating.
    pub max_comment_responses: u32,
}

impl Config {
    /// The limits the chain runs with.
    pub open spec fn spec_standard() -> Config {
        Config {
            max_comment_length: MAX_COMMENT_LENGTH,
            rating_expiration_blocks: RATING_EXPIRATION_BLOCKS,
            max_comment_responses: MAX_COMMENT_RESPONSES,
        }
    }

    /// The limits the chain runs with.
    #[verifier::when_used_as_spec(spec_standard)]
    pub fn standard() -> (config: Config)
        ensures
            config == Config::spec_standard(),
    {
        Config {
            max_comment_length: MAX_COMMENT_LENGTH,
            rating_expiration_blocks: RATING_EXPIRATION_BLOCKS,
            max_comment_responses: MAX_COMMENT_RESPONSES,
        }
    }
}

/// Who rates whom.
#[derive(Clone, Copy, PartialEq, Eq, Debug, Structural)]
pub enum RatingType {
    /// A student rates the tutor after a session.
    StudentToTutor,
    /// A tutor rates the student after a session.
    TutorToStudent,
    /// A participant of a group activity rates another.
    PeerToPeer,
    /// Any other feedback.
    General,
}

impl Default for RatingType {
    fn default() -> (kind: RatingType)
        ensures
            kind == RatingType::General,
    {
        RatingType::General
    }
}

/// Optional scores for single aspects of an interaction, each from 1 to 5.
#[derive(Clone, Copy, PartialEq, Eq, Debug)]
pub struct RatingAspects {
    pub communication: Option<u8>,
    pub knowledge: Option<u8>,
    pub punctuality: Option<u8>,
    pub engagement: Option<u8>,
    pub helpfulness: Option<u8>,
}

/// One piece of feedback from `rater` about `rated`.
#[derive(PartialEq, Eq, Debug)]
pub struct Rating {
    pub id: RatingId,
    pub rater: AccountId,
    pub rated: AccountId,
    /// From 1 to 5.
    pub score: u8,
    pub comment: BoundedVec<u8, ConstU32<MAX_COMMENT_LENGTH>>,
    pub interaction_id: Option<InteractionId>,
    pub group_activity_id: Option<GroupActivityId>,
    pub rating_type: RatingType,
    pub created_at: BlockNumber,
    /// `created_at` plus the expiration period, fixed at creation.
    pub expires_at: BlockNumber,
    /// Cleared once, when the rating expires.
    pub is_active: bool,
    pub aspects: Option<RatingAspects>,
}

/// What a `Rating` holds, with the comment as a sequence of bytes.
pub struct RatingView {
    pub id: RatingId,
    pub rater: AccountId,
    pub rated: AccountId,
    pub score: u8,
    pub comment: Seq<u8>,
    pub interaction_id: Option<InteractionId>,
    pub group_activity_id: Option<GroupActivityId>,
    pub rating_type: RatingType,
    pub created_at: BlockNumber,
    pub expires_at: BlockNumber,
    pub is_active: bool,
    pub aspects: Option<RatingAspects>,
}

impl View for Rating {
    type V = RatingView;

    open spec fn view(&self) -> RatingView {
        RatingView {
            id: self.id,
            rater: self.rater,
            rated: self.rated,
            score: self.score,
            comment: comment_bytes(self.comment),
            interaction_id: self.interaction_id,
            group_activity_id: self.group_activity_id,
            rating_type: self.rating_type,
            created_at: self.created_at,
            expires_at: self.expires_at,
            is_active: self.is_active,
            aspects: self.aspects,
        }
    }
}

/// A reply to a rating's comment, written by one of the rating's two parties.
#[derive(PartialEq, Eq, Debug)]
pub struct CommentResponse {
    pub id: ResponseId,
    pub responder: AccountId,
    pub content: BoundedVec<u8, ConstU32<MAX_COMMENT_LENGTH>>,
    pub created_at: BlockNumber,
}

/// What a `CommentResponse` holds, with the content as a sequence of bytes.
pub struct CommentResponseView {
    pub id: ResponseId,
    pub responder: AccountId,
    pub content: Seq<u8>,
    pub created_at: BlockNumber,
}

impl View for CommentResponse {
    type V = CommentResponseView;

    open spec fn view(&self) -> CommentResponseView {
        CommentResponseView {
            id: self.id,
            responder: self.responder,
            content: comment_bytes(self.content),
            created_at: self.created_at,
        }
    }
}

/// An account's standing, derived from the ratings it received. Scores are
/// hundredths of a point: 500 stands for five points.
#[derive(Clone, Copy, PartialEq, Eq, Debug)]
pub struct ReputationScore {
    /// Average of the recent ratings, each weighted by its age.
    pub current_score: u32,
    /// Average of all counted ratings, unweighted.
    pub historical_score: u32,
    /// Number of ratings counted.
    pub total_ratings: u32,
    /// Number of counted ratings younger than the expiration period.
    pub recent_ratings: u32,
    /// Block of the last recalculation.
    pub last_updated: BlockNumber,
}

impl Default for ReputationScore {
    fn default() -> (score: ReputationScore)
        ensures
            score == ReputationScore::unrated(),
    {
        ReputationScore {
            current_score: 0,
            historical_score: 0,
            total_ratings: 0,
            recent_ratings: 0,
            last_updated: 0,
        }
    }
}

impl ReputationScore {
    /// The standing of an account that was never recalculated.
    pub open spec fn unrated() -> ReputationScore {
        ReputationScore {
            current_score: 0,
            historical_score: 0,
            total_ratings: 0,
            recent_ratings: 0,
            last_updated: 0,
        }
    }
}

/// What the ledger tells its host after a command.
#[allow(inconsistent_fields)]
#[derive(Clone, Copy, PartialEq, Eq, Debug)]
pub enum Event {
    /// A new rating was created.
    RatingCreated {
        rating_id: RatingId,
        rater: AccountId,
        rated: AccountId,
        score: u8,
        rating_type: RatingType,
        interaction_id: Option<InteractionId>,
    },
    /// A rating was updated by its author.
    RatingUpdated { rating_id: RatingId, new_score: u8 },
    /// A rating expired.
    RatingExpired { rating_id: RatingId, rated: AccountId },
    /// An account's reputation was recalculated.
    ReputationUpdated { user: AccountId, new_score: u32, total_ratings: u32 },
    /// A comment was added to a rating.
    CommentAdded { rating_id: RatingId, commenter: AccountId },
    /// A reply was added to a rating's comment.
    CommentResponseAdded { rating_id: RatingId, response_id: ResponseId, responder: AccountId },
    /// Both parties of an interaction have now rated each other.
    BidirectionalRatingCompleted {
        interaction_id: InteractionId,
        student_rating: RatingId,
        tutor_rating: RatingId,
    },
    /// A peer rating was created inside a group activity.
    PeerRatingCreated {
        rating_id: RatingId,
        group_activity_id: GroupActivityId,
        rater: AccountId,
        rated: AccountId,
    },
}

/// Why a command was refused. A refused command changes nothing.
#[derive(Clone, Copy, PartialEq, Eq, Debug)]
pub enum Error {
    /// No rating has this identifier.
    RatingNotFound,
    /// The score is not between 1 and 5.
    InvalidRatingScore,
    /// The comment or reply is too long.
    CommentTooLong,
    /// Rater and rated are the same account.
    CannotRateSelf,
    /// A rating already exists for this interaction.
    RatingAlreadyExists,
    /// The caller is not allowed to do this.
    NotAuthorized,
    /// The rating is inactive or past its expiry.
    RatingExpired,
    /// The interaction is unknown.
    InteractionNotFound,
    /// An identifier counter is exhausted.
    ArithmeticOverflow,
    /// An index of ratings is full.
    TooManyRatings,
    /// No reply has this identifier.
    ResponseNotFound,
    /// The rating's comment cannot take another reply.
    TooManyResponses,
    /// The kind of rating does not fit the operation.
    InvalidRatingType,
    /// The group activity is unknown.
    GroupActivityNotFound,
    /// The caller has already rated this peer in this group activity.
    AlreadyRatedPeer,
    /// An aspect score is not between 1 and 5.
    InvalidAspectScore,
    /// This side of the interaction has already been rated.
    BidirectionalRatingExists,
}

} // verus!

//! The reputation ledger: ratings that expire, the scores derived from them,
//! paired tutor and student ratings, peer ratings inside group activities, and
//! the replies attached to a rating's comment.

pub mod aggregate;
pub mod bounded;
pub mod create;
pub mod expiry;
pub mod laws;
pub mod ledger;
pub mod pairing;
pub mod pallet;
pub mod queries;
pub mod responses;
pub mod types;
pub mod update;
pub mod validation;
pub mod weight;

pub use self::ledger::Ledger;
pub use self::pallet::Pallet;
pub use self::types::AccountId;
pub use self::types::BlockNumber;
pub use self::types::CommentResponse;
pub use self::types::Config;
pub use self::types::Error;
pub use self::types::Event;
pub use self::types::GroupActivityId;
pub use self::types::InteractionId;
pub use self::types::Rating;
pub use self::types::RatingAspects;
pub use self::types::RatingId;
pub use self::types::RatingType;
pub use self::types::ReputationScore;
pub use self::types::ResponseId;

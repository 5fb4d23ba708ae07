//! Replies to the comment of a rating.

use super::bounded::comment_from_vec;
use super::ledger::Ledger;
use super::ledger::precedes_is_reflexive;
use super::pallet::Pallet;
use super::types::AccountId;
use super::types::BlockNumber;
use super::types::CommentResponse;
use super::types::CommentResponseView;
use super::types::Error;
use super::types::Event;
use super::types::GroupActivityId;
use super::types::InteractionId;
use super::types::MAX_COMMENT_LENGTH;
use super::types::MAX_COMMENT_RESPONSES;
use super::types::RatingId;
use super::types::RatingType;
use super::types::ResponseId;
use vstd::prelude::*;

verus! {

impl Ledger {
    /// Why the ledger refuses a reply by `who` at block `now`, or `None`
    /// when it takes it. The first reason that applies is given.
    pub open spec fn response_refusal(
        self,
        who: AccountId,
        now: BlockNumber,
        rating_id: RatingId,
        content: Seq<u8>,
    ) -> Option<Error> {
        if content.len() > self.config.max_comment_length {
            Some(Error::CommentTooLong)
        } else if !self.ratings.contains_key(rating_id) {
            Some(Error::RatingNotFound)
        } else if !self.ratings[rating_id].counts(now) {
            Some(Error::RatingExpired)
        } else if !self.is_party(rating_id, who) {
            Some(Error::NotAuthorized)
        } else if self.responses(rating_id).len() >= self.config.max_comment_responses {
            Some(Error::TooManyResponses)
        } else if content.len() > MAX_COMMENT_LENGTH {
            Some(Error::CommentTooLong)
        } else if self.responses(rating_id).len() >= MAX_COMMENT_RESPONSES {
            Some(Error::TooManyResponses)
        } else if self.next_response_id == u64::MAX {
            Some(Error::ArithmeticOverflow)
        } else {
            None
        }
    }

    /// The reply that `who` writes at block `now`, as the ledger would
    /// store it.
    pub open spec fn reply(
        self,
        who: AccountId,
        now: BlockNumber,
        content: Seq<u8>,
    ) -> CommentResponseView {
        CommentResponseView { id: self.next_response_id, responder: who, content, created_at: now }
    }

    /// The ledger with `reply` appended to the thread of rating
    /// `rating_id`.
    pub open spec fn with_response(
        self,
        rating_id: RatingId,
        reply: CommentResponseView,
    ) -> Ledger {
        Ledger {
            comment_responses: self.comment_responses.insert(
                rating_id,
                self.responses(rating_id).push(reply),
            ),
            next_response_id: (reply.id + 1) as ResponseId,
            ..self
        }
    }
}

impl Pallet {
    /// Appends a reply by `who` to the comment of rating `rating_id`. Only
    /// the two parties of a rating may reply, only while the rating counts,
    /// and only while its thread has room. Nothing changes when the reply is
    /// refused.
    pub fn add_comment_response(
        &mut self,
        who: AccountId,
        now: BlockNumber,
        rating_id: RatingId,
        response_content: Vec<u8>,
    ) -> (r: Result<Vec<Event>, Error>)
        requires
            old(self).wf(),
        ensures
            final(self).wf(),
            old(self)@.precedes(final(self)@),
            match r {
                Ok(events) => {
                    &&& old(self)@.response_refusal(who, now, rating_id, response_content@) is None
                    &&& final(self)@ == old(self)@.with_response(
                        rating_id,
                        old(self)@.reply(who, now, response_content@),
                    )
                    &&& events@ == seq![
                        Event::CommentResponseAdded {
                            rating_id,
                            response_id: old(self)@.next_response_id,
                            responder: who,
                        },
                    ]
                },
                Err(e) => {
                    &&& old(self)@.response_refusal(who, now, rating_id, response_content@)
                        == Some(e)
                    &&& final(self)@ == old(self)@
                },
            },
    {
        let ghost before = self@;
        proof {
            precedes_is_reflexive(before);
        }
        let config = self.config();
        if response_content.len() > config.max_comment_length as usize {
            return Err(Error::CommentTooLong);
        }
        let (rater, rated, is_active, expires_at) = match self.ratings(rating_id) {
            Some(rating) => (rating.rater, rating.rated, rating.is_active, rating.expires_at),
            None => {
                return Err(Error::RatingNotFound);
            },
        };
        if !is_active {
            return Err(Error::RatingExpired);
        }
        if now >= expires_at {
            return Err(Error::RatingExpired);
        }
        if !(who == rated || who == rater) {
            return Err(Error::NotAuthorized);
        }
        let count = self.count_responses(rating_id);
        if count >= config.max_comment_responses as usize {
            return Err(Error::TooManyResponses);
        }
        let bounded_content = match comment_from_vec(response_content) {
            Ok(text) => text,
            Err(_) => {
                return Err(Error::CommentTooLong);
            },
        };
        if count >= MAX_COMMENT_RESPONSES as usize {
            return Err(Error::TooManyResponses);
        }
        let response_id = self.next_response_id();
        if response_id == u64::MAX {
            return Err(Error::ArithmeticOverflow);
        }
        let response = CommentResponse {
            id: response_id,
            responder: who,
            content: bounded_content,
            created_at: now,
        };
        assert(response@ == before.reply(who, now, response_content@));
        self.push_response(rating_id, response);
        self.advance_response_id();
        proof {
            response_keeps_wf(before, who, now, rating_id, response_content@);
        }
        let mut events: Vec<Event> = Vec::new();
        events.push(
            Event::CommentResponseAdded { rating_id, response_id, responder: who },
        );
        Ok(events)
    }

    /// The replies to the comment of rating `rating_id`, oldest first.
    pub fn get_comment_responses(&self, rating_id: RatingId) -> (replies: &[CommentResponse])
        ensures
            replies@.map_values(|reply: CommentResponse| reply@) == self@.responses(rating_id),
    {
        self.comment_responses(rating_id)
    }
}

/// A ledger that takes a reply stays well formed, and keeps all it had.
pub proof fn response_keeps_wf(
    ledger: Ledger,
    who: AccountId,
    now: BlockNumber,
    rating_id: RatingId,
    content: Seq<u8>,
)
    requires
        ledger.wf(),
        ledger.response_refusal(who, now, rating_id, content) is None,
    ensures
        ledger.with_response(rating_id, ledger.reply(who, now, content)).wf(),
        ledger.precedes(ledger.with_response(rating_id, ledger.reply(who, now, content))),
{
    let reply = ledger.reply(who, now, content);
    let after = ledger.with_response(rating_id, reply);
    assert(after.ratings_wf());
    assert(forall|who: AccountId| after.given(who) == ledger.given(who));
    assert(forall|who: AccountId| after.received(who) == ledger.received(who));
    assert(after.indices_wf());
    assert(forall|activity: GroupActivityId| after.activity(activity) == ledger.activity(activity));
    assert(forall|id: RatingId, activity: GroupActivityId|
        after.is_peer_rating_in(id, activity) == ledger.is_peer_rating_in(id, activity));
    assert(after.activities_wf());
    assert(forall|interaction: InteractionId| after.pair(interaction) == ledger.pair(interaction));
    assert(forall|id: RatingId, direction: RatingType, interaction: InteractionId|
        after.is_session_rating_of(id, direction, interaction) == ledger.is_session_rating_of(
            id,
            direction,
            interaction,
        ));
    assert(after.pairs_wf());
    assert forall|id: RatingId| #[trigger]
        after.responses(id) == if id == rating_id {
            ledger.responses(id).push(reply)
        } else {
            ledger.responses(id)
        } by {}
    assert forall|id: RatingId, k: int| 0 <= k < after.responses(id).len() implies after.reply_fits(
        id,
        #[trigger] after.responses(id)[k],
    ) by {
        if k < ledger.responses(id).len() {
            assert(ledger.reply_fits(id, ledger.responses(id)[k]));
        }
    }
    assert forall|id: RatingId, j: int, k: int|
        0 <= j < k < after.responses(id).len() implies (#[trigger] after.responses(id)[j]).id < (
    #[trigger] after.responses(id)[k]).id by {
        assert(ledger.reply_fits(id, ledger.responses(id)[j]));
        if k < ledger.responses(id).len() {
            assert(ledger.responses(id)[j].id < ledger.responses(id)[k].id);
        }
    }
    assert(after.threads_wf());
    assert(ledger.precedes(after));
}

} // verus!

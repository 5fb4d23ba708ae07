//! The bounded vectors of `frame_support`, as far as the ledger uses them.
//!
//! Verus does not look inside a `BoundedVec`. Each shape of it that the ledger
//! stores gets a name for the sequence it holds, and each method the ledger
//! calls gets a function here whose contract is taken on trust from the
//! method's source.

use super::types::CommentResponse;
use super::types::MAX_COMMENT_LENGTH;
use super::types::MAX_COMMENT_RESPONSES;
use super::types::MAX_PEER_RATINGS;
use super::types::MAX_RATINGS_PER_USER;
use super::types::RatingId;
use frame_support::BoundedVec;
use frame_support::traits::ConstU32;
use std::ops::Deref;
use vstd::prelude::*;

verus! {

/// `frame_support::BoundedVec`, opaque to the verifier.
#[verifier::external_type_specification]
#[verifier::external_body]
#[verifier::reject_recursive_types(T)]
#[verifier::reject_recursive_types(S)]
pub struct ExBoundedVec<T, S>(BoundedVec<T, S>);

/// `frame_support::traits::ConstU32`, the bound of a `BoundedVec` as a type.
#[verifier::external_type_specification]
#[verifier::external_body]
pub struct ExConstU32<const N: u32>(ConstU32<N>);

/// The bytes of a stored comment or reply.
pub uninterp spec fn comment_bytes(text: BoundedVec<u8, ConstU32<MAX_COMMENT_LENGTH>>) -> Seq<u8>;

/// The rating identifiers in an account's index, oldest first.
pub uninterp spec fn index_ids(index: BoundedVec<RatingId, ConstU32<MAX_RATINGS_PER_USER>>) -> Seq<
    RatingId,
>;

/// The rating identifiers in a group activity's index, oldest first.
pub uninterp spec fn activity_ids(index: BoundedVec<RatingId, ConstU32<MAX_PEER_RATINGS>>) -> Seq<
    RatingId,
>;

/// The replies in a thread, oldest first.
pub uninterp spec fn thread_replies(
    thread: BoundedVec<CommentResponse, ConstU32<MAX_COMMENT_RESPONSES>>,
) -> Seq<CommentResponse>;

/// `BoundedVec::try_from(Vec<u8>)`: the vector is taken as it is when it has
/// at most `MAX_COMMENT_LENGTH` bytes, and handed back otherwise.
#[verifier::external_body]
pub(crate) fn comment_from_vec(bytes: Vec<u8>) -> (r: Result<
    BoundedVec<u8, ConstU32<MAX_COMMENT_LENGTH>>,
    Vec<u8>,
>)
    ensures
        match r {
            Ok(text) => bytes@.len() <= MAX_COMMENT_LENGTH && comment_bytes(text) == bytes@,
            Err(back) => bytes@.len() > MAX_COMMENT_LENGTH && back == bytes,
        },
{
    BoundedVec::try_from(bytes)
}

/// `BoundedVec::new`: an empty index.
#[verifier::external_body]
pub(crate) fn index_new() -> (index: BoundedVec<RatingId, ConstU32<MAX_RATINGS_PER_USER>>)
    ensures
        index_ids(index) == Seq::<RatingId>::empty(),
{
    BoundedVec::new()
}

/// `BoundedVec::try_push`: appends `id` when the index holds fewer than
/// `MAX_RATINGS_PER_USER` identifiers; otherwise hands `id` back and leaves
/// the index as it was.
#[verifier::external_body]
pub(crate) fn index_try_push(
    index: &mut BoundedVec<RatingId, ConstU32<MAX_RATINGS_PER_USER>>,
    id: RatingId,
) -> (r: Result<(), RatingId>)
    ensures
        match r {
            Ok(_) => index_ids(*old(index)).len() < MAX_RATINGS_PER_USER && index_ids(
                *final(index),
            ) == index_ids(*old(index)).push(id),
            Err(back) => index_ids(*old(index)).len() >= MAX_RATINGS_PER_USER && back == id
                && index_ids(*final(index)) == index_ids(*old(index)),
        },
{
    index.try_push(id)
}

/// `BoundedVec::deref`: the vector inside an index, as it is.
#[verifier::external_body]
pub(crate) fn index_as_vec(index: &BoundedVec<RatingId, ConstU32<MAX_RATINGS_PER_USER>>) -> (v:
    &Vec<RatingId>)
    ensures
        v@ == index_ids(*index),
{
    index.deref()
}

/// `BoundedVec::new`: an empty activity index.
#[verifier::external_body]
pub(crate) fn activity_new() -> (index: BoundedVec<RatingId, ConstU32<MAX_PEER_RATINGS>>)
    ensures
        activity_ids(index) == Seq::<RatingId>::empty(),
{
    BoundedVec::new()
}

/// `BoundedVec::try_push`: appends `id` when the activity index holds fewer
/// than `MAX_PEER_RATINGS` identifiers; otherwise hands `id` back and leaves
/// the index as it was.
#[verifier::external_body]
pub(crate) fn activity_try_push(
    index: &mut BoundedVec<RatingId, ConstU32<MAX_PEER_RATINGS>>,
    id: RatingId,
) -> (r: Result<(), RatingId>)
    ensures
        match r {
            Ok(_) => activity_ids(*old(index)).len() < MAX_PEER_RATINGS && activity_ids(
                *final(index),
            ) == activity_ids(*old(index)).push(id),
            Err(back) => activity_ids(*old(index)).len() >= MAX_PEER_RATINGS && back == id
                && activity_ids(*final(index)) == activity_ids(*old(index)),
        },
{
    index.try_push(id)
}

/// `BoundedVec::deref`: the vector inside an activity index, as it is.
#[verifier::external_body]
pub(crate) fn activity_as_vec(index: &BoundedVec<RatingId, ConstU32<MAX_PEER_RATINGS>>) -> (v: &Vec<
    RatingId,
>)
    ensures
        v@ == activity_ids(*index),
{
    index.deref()
}

/// `BoundedVec::new`: an empty thread.
#[verifier::external_body]
pub(crate) fn thread_new() -> (thread: BoundedVec<
    CommentResponse,
    ConstU32<MAX_COMMENT_RESPONSES>,
>)
    ensures
        thread_replies(thread) == Seq::<CommentResponse>::empty(),
{
    BoundedVec::new()
}

/// `BoundedVec::try_push`: appends `reply` when the thread holds fewer than
/// `MAX_COMMENT_RESPONSES` replies; otherwise hands `reply` back and leaves
/// the thread as it was.
#[verifier::external_body]
pub(crate) fn thread_try_push(
    thread: &mut BoundedVec<CommentResponse, ConstU32<MAX_COMMENT_RESPONSES>>,
    reply: CommentResponse,
) -> (r: Result<(), CommentResponse>)
    ensures
        match r {
            Ok(_) => thread_replies(*old(thread)).len() < MAX_COMMENT_RESPONSES && thread_replies(
                *final(thread),
            ) == thread_replies(*old(thread)).push(reply),
            Err(back) => thread_replies(*old(thread)).len() >= MAX_COMMENT_RESPONSES && back
                == reply && thread_replies(*final(thread)) == thread_replies(*old(thread)),
        },
{
    thread.try_push(reply)
}

/// `BoundedVec::deref`: the vector inside a thread, as it is.
#[verifier::external_body]
pub(crate) fn thread_as_vec(
    thread: &BoundedVec<CommentResponse, ConstU32<MAX_COMMENT_RESPONSES>>,
) -> (v: &Vec<CommentResponse>)
    ensures
        v@ == thread_replies(*thread),
{
    thread.deref()
}

} // verus!

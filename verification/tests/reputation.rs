use keiko::reputation::types::MAX_COMMENT_LENGTH;
use keiko::reputation::types::MAX_COMMENT_RESPONSES;
use keiko::reputation::types::RATING_EXPIRATION_BLOCKS;
use keiko::reputation::Config;
use keiko::reputation::Error;
use keiko::reputation::Event;
use keiko::reputation::Pallet;
use keiko::reputation::RatingAspects;
use keiko::reputation::RatingType;

fn new_ledger() -> Pallet {
    Pallet::new(Config::standard())
}

#[test]
fn create_rating_works() {
    let mut ledger = new_ledger();

    // Create a rating
    let events = ledger
        .create_rating(
            1,
            1,
            2,                            // rated user
            5,                            // score
            b"Excellent tutor!".to_vec(), // comment
            Some(1),                      // interaction_id
        )
        .unwrap();

    // Check that the rating was created
    let rating = ledger.ratings(1).unwrap();
    assert_eq!(rating.rater, 1);
    assert_eq!(rating.rated, 2);
    assert_eq!(rating.score, 5);
    assert_eq!(rating.comment, b"Excellent tutor!".to_vec());
    assert_eq!(rating.interaction_id, Some(1));
    assert_eq!(rating.is_active, true);

    // Check that the rating lists were updated
    assert_eq!(ledger.ratings_given(1), vec![1]);
    assert_eq!(ledger.ratings_received(2), vec![1]);

    // Check that next rating ID was incremented
    assert_eq!(ledger.next_rating_id(), 2);

    // Check that reputation was calculated
    let reputation = ledger.reputation_scores(2);
    assert_eq!(reputation.current_score, 500); // 5 * 100
    assert_eq!(reputation.total_ratings, 1);
    assert_eq!(reputation.recent_ratings, 1);

    // Check that event was emitted
    assert_eq!(
        events.last(),
        Some(&Event::RatingCreated {
            rating_id: 1,
            rater: 1,
            rated: 2,
            score: 5,
            rating_type: RatingType::General,
            interaction_id: Some(1),
        })
    );
}

#[test]
fn cannot_rate_self() {
    let mut ledger = new_ledger();

    // Try to rate yourself
    assert_eq!(
        ledger.create_rating(
            1,
            1,
            1, // same as rater
            5,
            b"Self rating".to_vec(),
            None,
        ),
        Err(Error::CannotRateSelf)
    );
    assert_eq!(ledger.next_rating_id(), 1);
    assert!(ledger.ratings(1).is_none());
}

#[test]
fn invalid_rating_score_fails() {
    let mut ledger = new_ledger();

    // Try to create rating with score 0 (invalid)
    assert_eq!(
        ledger.create_rating(
            1,
            1,
            2,
            0, // invalid score
            b"Bad score".to_vec(),
            None,
        ),
        Err(Error::InvalidRatingScore)
    );

    // Try to create rating with score 6 (invalid)
    assert_eq!(
        ledger.create_rating(
            1,
            1,
            2,
            6, // invalid score
            b"Bad score".to_vec(),
            None,
        ),
        Err(Error::InvalidRatingScore)
    );
    assert_eq!(ledger.next_rating_id(), 1);
    assert!(ledger.ratings_received(2).is_empty());
}

#[test]
fn comment_too_long_fails() {
    let mut ledger = new_ledger();

    // Create a comment that's too long
    let long_comment = vec![b'a'; (ledger.config().max_comment_length + 1) as usize];

    assert_eq!(
        ledger.create_rating(1, 1, 2, 5, long_comment, None),
        Err(Error::CommentTooLong)
    );
    assert_eq!(ledger.next_rating_id(), 1);
}

#[test]
fn update_rating_works() {
    let mut ledger = new_ledger();

    // Create a rating first
    assert!(ledger.create_rating(1, 1, 2, 3, b"Good".to_vec(), None).is_ok());

    // Update the rating
    let events = ledger
        .update_rating(
            1,
            1,
            1,                            // rating_id
            5,                            // new score
            Some(b"Excellent!".to_vec()), // new comment
            None,
        )
        .unwrap();

    // Check that the rating was updated
    let rating = ledger.ratings(1).unwrap();
    assert_eq!(rating.score, 5);
    assert_eq!(rating.comment, b"Excellent!".to_vec());

    // Check that reputation was recalculated
    let reputation = ledger.reputation_scores(2);
    assert_eq!(reputation.current_score, 500); // 5 * 100

    // Check that event was emitted
    assert_eq!(events.last(), Some(&Event::RatingUpdated { rating_id: 1, new_score: 5 }));
}

#[test]
fn cannot_update_others_rating() {
    let mut ledger = new_ledger();

    // Create a rating
    assert!(ledger.create_rating(1, 1, 2, 3, b"Good".to_vec(), None).is_ok());

    // Try to update rating from different user
    assert_eq!(
        ledger.update_rating(
            3, // different user
            1, 1, 5, None, None,
        ),
        Err(Error::NotAuthorized)
    );
    assert_eq!(ledger.ratings(1).unwrap().score, 3);
}

#[test]
fn reputation_calculation_with_multiple_ratings() {
    let mut ledger = new_ledger();

    // Create multiple ratings for user 2
    assert!(ledger.create_rating(1, 1, 2, 5, b"Excellent".to_vec(), None).is_ok());
    assert!(ledger.create_rating(3, 1, 2, 4, b"Good".to_vec(), None).is_ok());
    assert!(ledger.create_rating(4, 1, 2, 3, b"Average".to_vec(), None).is_ok());

    // Check reputation calculation
    // Average should be (5 + 4 + 3) / 3 = 4.0 * 100 = 400
    let reputation = ledger.reputation_scores(2);
    assert_eq!(reputation.current_score, 400);
    assert_eq!(reputation.total_ratings, 3);
    assert_eq!(reputation.recent_ratings, 3);
}

#[test]
fn rating_expires_after_30_days() {
    let mut ledger = new_ledger();

    // Create a rating
    assert!(ledger.create_rating(1, 1, 2, 5, b"Excellent tutor!".to_vec(), None).is_ok());

    // Check initial state
    let rating = ledger.ratings(1).unwrap();
    assert_eq!(rating.is_active, true);
    assert_eq!(rating.expires_at, 1 + RATING_EXPIRATION_BLOCKS as u64);

    let reputation = ledger.reputation_scores(2);
    assert_eq!(reputation.current_score, 500);
    assert_eq!(reputation.recent_ratings, 1);

    // Advance time to just before expiration
    // Rating should still be active
    let (reputation, _) = ledger.get_current_reputation(2, RATING_EXPIRATION_BLOCKS as u64);
    assert_eq!(reputation.recent_ratings, 1);

    // Advance time past expiration
    // Recalculate reputation - this should expire the rating
    let (reputation, events) =
        ledger.get_current_reputation(2, RATING_EXPIRATION_BLOCKS as u64 + 2);
    assert_eq!(reputation.recent_ratings, 0);
    assert_eq!(reputation.current_score, 0);

    // Check that the rating is marked as inactive
    let rating = ledger.ratings(1).unwrap();
    assert_eq!(rating.is_active, false);

    // Check that expiration event was emitted
    assert!(events.contains(&Event::RatingExpired { rating_id: 1, rated: 2 }));
}

#[test]
fn time_weighted_reputation_calculation() {
    let mut ledger = new_ledger();

    // Create an old rating
    assert!(ledger.create_rating(1, 1, 2, 5, b"Old rating".to_vec(), None).is_ok());

    // Advance time significantly but not to expiration
    let half_expiration = RATING_EXPIRATION_BLOCKS as u64 / 2;

    // Create a new rating
    assert!(ledger
        .create_rating(3, 1 + half_expiration, 2, 3, b"New rating".to_vec(), None)
        .is_ok());

    // The newer rating should have more weight in the calculation
    let reputation = ledger.reputation_scores(2);

    // Both ratings should be counted
    assert_eq!(reputation.recent_ratings, 2);
    assert_eq!(reputation.total_ratings, 2);

    // The score should be weighted towards the newer rating
    // Exact calculation depends on the time weighting algorithm
    assert!(reputation.current_score > 0);
    assert!(reputation.current_score <= 500); // Max possible with 5-star rating
}

#[test]
fn batch_expire_old_ratings_works() {
    let mut ledger = new_ledger();

    // Create multiple ratings
    for i in 1..=5 {
        assert!(ledger
            .create_rating(
                i,
                1,
                10, // all rating user 10
                5,
                b"Test rating".to_vec(),
                None,
            )
            .is_ok());
    }

    // Check initial state
    let reputation = ledger.reputation_scores(10);
    assert_eq!(reputation.total_ratings, 5);

    // Advance time past expiration
    // Manually expire ratings
    assert!(ledger
        .expire_old_ratings(
            1,
            RATING_EXPIRATION_BLOCKS as u64 + 10,
            10, // limit
        )
        .is_ok());

    // Check that ratings were expired
    for i in 1..=5 {
        let rating = ledger.ratings(i).unwrap();
        assert_eq!(rating.is_active, false);
    }
}

#[test]
fn cannot_update_expired_rating() {
    let mut ledger = new_ledger();

    // Create a rating
    assert!(ledger.create_rating(1, 1, 2, 3, b"Initial rating".to_vec(), None).is_ok());

    // Advance time past expiration
    // Try to update the expired rating
    assert_eq!(
        ledger.update_rating(
            1,
            RATING_EXPIRATION_BLOCKS as u64 + 10,
            1,
            5,
            Some(b"Updated rating".to_vec()),
            None,
        ),
        Err(Error::RatingExpired)
    );
    assert_eq!(ledger.ratings(1).unwrap().score, 3);
    assert_eq!(ledger.ratings(1).unwrap().comment, b"Initial rating".to_vec());
}

#[test]
fn force_recalculate_reputation_works() {
    let mut ledger = new_ledger();

    // Create a rating
    assert!(ledger.create_rating(1, 1, 2, 4, b"Test rating".to_vec(), None).is_ok());

    // Advance time past expiration
    // Force recalculate reputation
    assert!(ledger
        .force_recalculate_reputation(1, RATING_EXPIRATION_BLOCKS as u64 + 10, 2)
        .is_ok());

    // Check that reputation was updated and rating expired
    let reputation = ledger.reputation_scores(2);
    assert_eq!(reputation.recent_ratings, 0);

    let rating = ledger.ratings(1).unwrap();
    assert_eq!(rating.is_active, false);
}

#[test]
fn get_active_ratings_filters_expired() {
    let mut ledger = new_ledger();

    // Create multiple ratings at different times
    assert!(ledger.create_rating(1, 1, 2, 5, b"Rating 1".to_vec(), None).is_ok());
    assert!(ledger.create_rating(3, 100, 2, 4, b"Rating 2".to_vec(), None).is_ok());

    // Check that both ratings are active
    let active_ratings = ledger.get_active_ratings_for_user(2, 100);
    assert_eq!(active_ratings.len(), 2);

    // Advance time to expire first rating
    // Only the second rating should be active
    let active_ratings =
        ledger.get_active_ratings_for_user(2, RATING_EXPIRATION_BLOCKS as u64 + 10);
    assert_eq!(active_ratings.len(), 1);
    assert_eq!(active_ratings[0], 2); // Second rating ID
}

// Tests for bidirectional rating system

#[test]
fn create_detailed_rating_works() {
    let mut ledger = new_ledger();

    let aspects = RatingAspects {
        communication: Some(5),
        knowledge: Some(4),
        punctuality: Some(5),
        engagement: Some(4),
        helpfulness: Some(5),
    };

    // Create a detailed rating
    let events = ledger
        .create_detailed_rating(
            1,
            1,
            2, // rated user
            5, // score
            b"Excellent tutor with great communication!".to_vec(),
            Some(1), // interaction_id
            None,    // group_activity_id
            RatingType::StudentToTutor,
            Some(aspects.clone()),
        )
        .unwrap();

    // Check that the rating was created with all details
    let rating = ledger.ratings(1).unwrap();
    assert_eq!(rating.rater, 1);
    assert_eq!(rating.rated, 2);
    assert_eq!(rating.score, 5);
    assert_eq!(rating.rating_type, RatingType::StudentToTutor);
    assert_eq!(rating.aspects, Some(aspects));

    // Check that event was emitted with rating type
    assert_eq!(
        events.last(),
        Some(&Event::RatingCreated {
            rating_id: 1,
            rater: 1,
            rated: 2,
            score: 5,
            rating_type: RatingType::StudentToTutor,
            interaction_id: Some(1),
        })
    );
}

#[test]
fn bidirectional_rating_works() {
    let mut ledger = new_ledger();

    // Student rates tutor
    assert!(ledger
        .create_detailed_rating(
            1, // student
            1,
            2, // tutor
            5,
            b"Great tutor!".to_vec(),
            Some(1), // interaction_id
            None,
            RatingType::StudentToTutor,
            None,
        )
        .is_ok());

    // Check that rating pair was created
    let rating_pair = ledger.get_rating_pair(1);
    assert_eq!(rating_pair.0, Some(1)); // student_to_tutor
    assert_eq!(rating_pair.1, None); // tutor_to_student not yet

    // Tutor rates student
    let events = ledger
        .create_detailed_rating(
            2, // tutor
            1,
            1, // student
            4,
            b"Good student, engaged well!".to_vec(),
            Some(1), // same interaction_id
            None,
            RatingType::TutorToStudent,
            None,
        )
        .unwrap();

    // Check that both ratings are now in the pair
    let rating_pair = ledger.get_rating_pair(1);
    assert_eq!(rating_pair.0, Some(1)); // student_to_tutor
    assert_eq!(rating_pair.1, Some(2)); // tutor_to_student

    // Check that bidirectional completion event was emitted
    assert!(events.contains(&Event::BidirectionalRatingCompleted {
        interaction_id: 1,
        student_rating: 1,
        tutor_rating: 2,
    }));
}

#[test]
fn cannot_create_duplicate_bidirectional_rating() {
    let mut ledger = new_ledger();

    // Student rates tutor
    assert!(ledger
        .create_detailed_rating(
            1,
            1,
            2,
            5,
            b"Great tutor!".to_vec(),
            Some(1),
            None,
            RatingType::StudentToTutor,
            None,
        )
        .is_ok());

    // Try to create another student-to-tutor rating for same interaction
    assert_eq!(
        ledger.create_detailed_rating(
            1,
            1,
            2,
            4,
            b"Another rating".to_vec(),
            Some(1), // same interaction_id
            None,
            RatingType::StudentToTutor,
            None,
        ),
        Err(Error::BidirectionalRatingExists)
    );
    assert_eq!(ledger.next_rating_id(), 2);
    assert!(ledger.ratings(2).is_none());
    assert_eq!(ledger.ratings_given(1), vec![1]);
    assert_eq!(ledger.ratings_received(2), vec![1]);
    assert_eq!(ledger.get_rating_pair(1), (Some(1), None));
}

#[test]
fn add_comment_response_works() {
    let mut ledger = new_ledger();

    // Create a rating first
    assert!(ledger
        .create_rating(1, 1, 2, 4, b"Good tutor, but could improve punctuality".to_vec(), None)
        .is_ok());

    // Rated user responds to the comment
    let events = ledger
        .add_comment_response(
            2, // rated user
            1,
            1, // rating_id
            b"Thank you for the feedback! I'll work on being more punctual.".to_vec(),
        )
        .unwrap();

    // Check that response was added
    let responses = ledger.get_comment_responses(1);
    assert_eq!(responses.len(), 1);
    assert_eq!(responses[0].responder, 2);
    assert_eq!(
        responses[0].content,
        b"Thank you for the feedback! I'll work on being more punctual.".to_vec()
    );

    // Check that event was emitted
    assert_eq!(
        events.last(),
        Some(&Event::CommentResponseAdded { rating_id: 1, response_id: 1, responder: 2 })
    );

    // Rater can also respond
    assert!(ledger
        .add_comment_response(
            1, // the rater
            1,
            1,
            b"Great attitude! Looking forward to future sessions.".to_vec(),
        )
        .is_ok());

    let responses = ledger.get_comment_responses(1);
    assert_eq!(responses.len(), 2);
}

#[test]
fn only_involved_parties_can_respond_to_comments() {
    let mut ledger = new_ledger();

    // Create a rating
    assert!(ledger.create_rating(1, 1, 2, 4, b"Good session".to_vec(), None).is_ok());

    // Third party tries to respond
    assert_eq!(
        ledger.add_comment_response(
            3, // uninvolved party
            1,
            1,
            b"I want to comment too!".to_vec(),
        ),
        Err(Error::NotAuthorized)
    );
    assert!(ledger.get_comment_responses(1).is_empty());
}

#[test]
fn create_peer_rating_works() {
    let mut ledger = new_ledger();

    let aspects = RatingAspects {
        communication: Some(4),
        knowledge: Some(5),
        punctuality: None,
        engagement: Some(5),
        helpfulness: Some(4),
    };

    // Create a peer rating for group activity
    let events = ledger
        .create_peer_rating(
            1, // rater
            1,
            2,   // rated peer
            100, // group_activity_id
            4,
            b"Great collaboration in our study group!".to_vec(),
            Some(aspects.clone()),
        )
        .unwrap();

    // Check that rating was created
    let rating = ledger.ratings(1).unwrap();
    assert_eq!(rating.rating_type, RatingType::PeerToPeer);
    assert_eq!(rating.group_activity_id, Some(100));
    assert_eq!(rating.aspects, Some(aspects));

    // Check that it was added to group activity ratings
    let group_ratings = ledger.get_group_activity_ratings(100);
    assert_eq!(group_ratings, vec![1]);

    // Check that peer rating event was emitted
    assert!(events.contains(&Event::PeerRatingCreated {
        rating_id: 1,
        group_activity_id: 100,
        rater: 1,
        rated: 2,
    }));
}

#[test]
fn cannot_rate_same_peer_twice_in_group_activity() {
    let mut ledger = new_ledger();

    // Create first peer rating
    assert!(ledger
        .create_peer_rating(
            1,
            1,
            2,
            100, // group_activity_id
            4,
            b"Good work!".to_vec(),
            None,
        )
        .is_ok());

    // Try to rate the same peer again in the same group activity
    assert_eq!(
        ledger.create_peer_rating(
            1,
            1,
            2,   // same peer
            100, // same group_activity_id
            5,
            b"Even better work!".to_vec(),
            None,
        ),
        Err(Error::AlreadyRatedPeer)
    );
    assert_eq!(ledger.next_rating_id(), 2);
    assert_eq!(ledger.get_group_activity_ratings(100), vec![1]);

    // But can rate different peer in same group
    assert!(ledger
        .create_peer_rating(
            1,
            1,
            3,   // different peer
            100, // same group_activity_id
            5,
            b"Also great work!".to_vec(),
            None,
        )
        .is_ok());

    // And can rate same peer in different group
    assert!(ledger
        .create_peer_rating(
            1,
            1,
            2,   // same peer
            101, // different group_activity_id
            5,
            b"Great in this group too!".to_vec(),
            None,
        )
        .is_ok());
}

#[test]
fn invalid_aspect_scores_fail() {
    let mut ledger = new_ledger();

    let invalid_aspects = RatingAspects {
        communication: Some(0), // invalid score
        knowledge: Some(4),
        punctuality: Some(5),
        engagement: Some(4),
        helpfulness: Some(5),
    };

    assert_eq!(
        ledger.create_detailed_rating(
            1,
            1,
            2,
            5,
            b"Test".to_vec(),
            None,
            None,
            RatingType::General,
            Some(invalid_aspects),
        ),
        Err(Error::InvalidAspectScore)
    );

    let invalid_aspects2 = RatingAspects {
        communication: Some(5),
        knowledge: Some(6), // invalid score
        punctuality: Some(5),
        engagement: Some(4),
        helpfulness: Some(5),
    };

    assert_eq!(
        ledger.create_detailed_rating(
            1,
            1,
            2,
            5,
            b"Test".to_vec(),
            None,
            None,
            RatingType::General,
            Some(invalid_aspects2),
        ),
        Err(Error::InvalidAspectScore)
    );
    assert_eq!(ledger.next_rating_id(), 1);
}

#[test]
fn update_rating_with_aspects_works() {
    let mut ledger = new_ledger();

    // Create initial rating
    assert!(ledger.create_rating(1, 1, 2, 3, b"Initial rating".to_vec(), None).is_ok());

    let new_aspects = RatingAspects {
        communication: Some(4),
        knowledge: Some(5),
        punctuality: Some(3),
        engagement: Some(4),
        helpfulness: Some(4),
    };

    // Update with aspects
    assert!(ledger
        .update_rating(
            1,
            1,
            1,
            4,
            Some(b"Updated with detailed feedback".to_vec()),
            Some(new_aspects.clone()),
        )
        .is_ok());

    // Check that aspects were added
    let rating = ledger.ratings(1).unwrap();
    assert_eq!(rating.score, 4);
    assert_eq!(rating.aspects, Some(new_aspects));
}

#[test]
fn get_ratings_by_type_works() {
    let mut ledger = new_ledger();

    // Create different types of ratings for user 2
    assert!(ledger
        .create_detailed_rating(
            1,
            1,
            2,
            5,
            b"As student".to_vec(),
            Some(1),
            None,
            RatingType::StudentToTutor,
            None,
        )
        .is_ok());

    assert!(ledger
        .create_detailed_rating(
            3,
            1,
            2,
            4,
            b"As peer".to_vec(),
            None,
            Some(100),
            RatingType::PeerToPeer,
            None,
        )
        .is_ok());

    assert!(ledger.create_rating(4, 1, 2, 3, b"General rating".to_vec(), None).is_ok());

    // Get ratings by type
    let student_ratings = ledger.get_ratings_by_type(2, &RatingType::StudentToTutor);
    assert_eq!(student_ratings.len(), 1);
    assert_eq!(student_ratings[0], 1);

    let peer_ratings = ledger.get_ratings_by_type(2, &RatingType::PeerToPeer);
    assert_eq!(peer_ratings.len(), 1);
    assert_eq!(peer_ratings[0], 2);

    let general_ratings = ledger.get_ratings_by_type(2, &RatingType::General);
    assert_eq!(general_ratings.len(), 1);
    assert_eq!(general_ratings[0], 3);
}

#[test]
fn has_peer_rating_works() {
    let mut ledger = new_ledger();

    // Initially no peer rating
    assert_eq!(ledger.has_peer_rating(1, 2, 100), false);

    // Create peer rating
    assert!(ledger.create_peer_rating(1, 1, 2, 100, 4, b"Good peer".to_vec(), None).is_ok());

    // Now should return true
    assert_eq!(ledger.has_peer_rating(1, 2, 100), true);

    // Different group should still be false
    assert_eq!(ledger.has_peer_rating(1, 2, 101), false);

    // Different users should be false
    assert_eq!(ledger.has_peer_rating(1, 3, 100), false);
    assert_eq!(ledger.has_peer_rating(3, 2, 100), false);
}

#[test]
fn too_many_comment_responses_fails() {
    let mut ledger = new_ledger();

    // Create a rating
    assert!(ledger.create_rating(1, 1, 2, 4, b"Test rating".to_vec(), None).is_ok());

    // Add maximum number of responses
    for i in 0..MAX_COMMENT_RESPONSES {
        assert!(ledger
            .add_comment_response(
                if i % 2 == 0 { 1 } else { 2 },
                1,
                1,
                format!("Response {}", i).into_bytes(),
            )
            .is_ok());
    }

    // Try to add one more response
    assert_eq!(
        ledger.add_comment_response(1, 1, 1, b"One too many".to_vec()),
        Err(Error::TooManyResponses)
    );

    // The replies so far are all there, in the order in which they came
    let responses = ledger.get_comment_responses(1);
    assert_eq!(responses.len(), 10);
    for i in 0..MAX_COMMENT_RESPONSES {
        let reply = &responses[i as usize];
        assert_eq!(reply.id, i as u64 + 1);
        assert_eq!(reply.responder, if i % 2 == 0 { 1 } else { 2 });
        assert_eq!(reply.content, format!("Response {}", i).into_bytes());
    }
    assert_eq!(ledger.next_response_id(), 11);
}

#[test]
fn cannot_respond_to_expired_rating() {
    let mut ledger = new_ledger();

    // Create a rating
    assert!(ledger.create_rating(1, 1, 2, 4, b"Test rating".to_vec(), None).is_ok());

    // Advance time past expiration
    // Try to respond to expired rating
    assert_eq!(
        ledger.add_comment_response(
            2,
            RATING_EXPIRATION_BLOCKS as u64 + 10,
            1,
            b"Late response".to_vec(),
        ),
        Err(Error::RatingExpired)
    );
    assert!(ledger.get_comment_responses(1).is_empty());
    assert_eq!(MAX_COMMENT_LENGTH, 500);
}

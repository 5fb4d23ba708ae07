//! The records that the network's API serves to its clients.

use vstd::prelude::*;

verus! {

/// A participant as the API shows it.
#[derive(PartialEq, Eq, Debug)]
pub struct User {
    pub id: String,
    pub name: String,
    /// The learning passport of the participant, once one exists.
    pub passport_id: Option<String>,
}

/// One recorded learning activity of a participant.
#[derive(PartialEq, Eq, Debug)]
pub struct LearningInteraction {
    pub id: String,
    pub user_id: String,
    pub activity_type: String,
    pub content: String,
    pub timestamp: String,
}

/// A tutoring session between a tutor and a student.
#[derive(PartialEq, Eq, Debug)]
pub struct TutoringSession {
    pub id: String,
    pub tutor_id: String,
    pub student_id: String,
    pub subject: String,
    pub status: String,
}

/// The root of what the API answers: a user, a user's learning
/// interactions, a user's tutoring sessions.
#[derive(Clone, Copy, PartialEq, Eq, Debug)]
pub struct Query;

/// The root of what the API changes: it records a learning interaction and
/// starts a tutoring session.
#[derive(Clone, Copy, PartialEq, Eq, Debug)]
pub struct Mutation;

} // verus!

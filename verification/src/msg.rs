//! The messages that the module accepts and the answers to its queries.

use vstd::prelude::*;
use crate::poll::{Ballot, Poll};

verus! {

/// Who sent a command, as the host established it.
#[derive(Debug, Clone, PartialEq, Eq)]
pub struct MessageInfo {
    /// The sender's identity.
    pub sender: String,
}

/// The input of the initialization.
#[derive(Debug, Clone, PartialEq, Eq)]
pub struct InstantiateMsg {
    /// The administrator to set, where it is not the sender.
    pub admin: Option<String>,
}

/// A command that changes the state.
#[derive(Debug, Clone, PartialEq, Eq)]
pub enum ExecuteMsg {
    /// Opens a poll under `poll_id`.
    CreatePoll { poll_id: String, question: String, options: Vec<String> },
    /// Casts or changes the sender's ballot in the poll `poll_id`.
    Vote { poll_id: String, vote: String },
    /// Declared without behaviour.
    DeletePoll { poll_id: String },
    /// Declared without behaviour.
    RevokeVote { poll_id: String, vote: String },
}

/// A question about the state.
#[derive(Debug, Clone, PartialEq, Eq)]
pub enum QueryMsg {
    /// All polls, by ascending id.
    AllPolls {  },
    /// The poll stored under `poll_id`.
    Poll { poll_id: String },
    /// The ballot of `address` in the poll `poll_id`.
    Vote { address: String, poll_id: String },
    /// Declared without behaviour.
    ConfigUser {  },
    /// Declared without behaviour.
    AllVoteUser { address: String },
}

/// The answer to `QueryMsg::AllPolls`.
#[derive(Debug, Clone, PartialEq, Eq)]
pub struct AllPollsResponse {
    pub polls: Vec<Poll>,
}

/// The answer to `QueryMsg::Poll`.
#[derive(Debug, Clone, PartialEq, Eq)]
pub struct PollResponse {
    pub poll: Option<Poll>,
}

/// The answer to `QueryMsg::Vote`.
#[derive(Debug, Clone, PartialEq, Eq)]
pub struct VoteResponse {
    pub vote: Option<Ballot>,
}

/// The answer to a query, by the kind of question.
#[derive(Debug, Clone, PartialEq, Eq)]
pub enum QueryResponse {
    AllPolls(AllPollsResponse),
    Poll(PollResponse),
    Vote(VoteResponse),
}

} // verus!

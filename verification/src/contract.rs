//! The commands and queries of the module, each as one step on the state.

use vstd::prelude::*;
use cosmwasm_std::{Response, StdError};
use crate::error::ContractError;
use crate::events::{action_response, attributes_of, with_attribute};
use crate::msg::{
    AllPollsResponse,
    ExecuteMsg,
    InstantiateMsg,
    MessageInfo,
    PollResponse,
    QueryMsg,
    QueryResponse,
    VoteResponse,
};
use crate::poll::{ballot_choice, Ballot, Poll, PollView, MAX_OPTIONS};
use crate::state::{Config, Store, StateView};

verus! {

/// The administrator that an initialization sets: the one it names, or
/// else the sender.
pub open spec fn admin_of(sender: Seq<char>, named: Option<Seq<char>>) -> Seq<char> {
    match named {
        Some(a) => a,
        None => sender,
    }
}

/// The text of an optional string.
pub open spec fn text_of(s: Option<String>) -> Option<Seq<char>> {
    match s {
        Some(s) => Some(s@),
        None => None,
    }
}

/// The labels of a list of options.
pub open spec fn labels_of(options: Seq<String>) -> Seq<Seq<char>> {
    options.map_values(|l: String| l@)
}

/// The polls of an answer as mathematical values.
pub open spec fn polls_of(polls: Seq<Poll>) -> Seq<PollView> {
    polls.map_values(|p: Poll| p@)
}

/// The poll of an answer as a mathematical value.
pub open spec fn poll_of(poll: Option<Poll>) -> Option<PollView> {
    match poll {
        Some(p) => Some(p@),
        None => None,
    }
}

/// What creating a poll leads to: a refusal where there are too many
/// options, else the state with the fresh poll under `id`.
pub open spec fn create_poll_result(
    s: StateView,
    sender: Seq<char>,
    id: Seq<char>,
    question: Seq<char>,
    labels: Seq<Seq<char>>,
) -> Result<StateView, ContractError> {
    if labels.len() > MAX_OPTIONS {
        Err(ContractError::TooManyOptions {  })
    } else {
        Ok(s.with_poll(id, PollView::fresh(sender, question, labels)))
    }
}

/// What a vote leads to: a refusal where the poll or the option is
/// missing, else the state with the voter's ballot set to `label`, one
/// ballot fewer counted for the voter's earlier choice and one more for
/// `label`.
pub open spec fn vote_result(s: StateView, voter: Seq<char>, id: Seq<char>, label: Seq<char>) -> Result<
    StateView,
    ContractError,
> {
    match s.poll(id) {
        None => Err(ContractError::PollNotFound {  }),
        Some(p) => if !p.has_option(label) {
            Err(ContractError::OptionNotFound {  })
        } else {
            Ok(s.with_ballot(voter, id, label).with_poll(id, p.voted(s.ballot(voter, id), label)))
        },
    }
}

/// The vote can be counted: where the poll has the option and the voter
/// has an earlier ballot, that ballot names an option of the poll with at
/// least one ballot counted, and no tally would pass the largest number.
pub open spec fn vote_defined(s: StateView, voter: Seq<char>, id: Seq<char>, label: Seq<char>) -> bool {
    match s.poll(id) {
        Some(p) => p.vote_defined(s.ballot(voter, id), label),
        None => true,
    }
}

/// What a command leads to.
pub open spec fn execute_result(s: StateView, sender: Seq<char>, msg: ExecuteMsg) -> Result<
    StateView,
    ContractError,
> {
    match msg {
        ExecuteMsg::CreatePoll { poll_id, question, options } => create_poll_result(
            s,
            sender,
            poll_id@,
            question@,
            labels_of(options@),
        ),
        ExecuteMsg::Vote { poll_id, vote } => vote_result(s, sender, poll_id@, vote@),
        ExecuteMsg::DeletePoll { poll_id } => Err(ContractError::NotImplemented {  }),
        ExecuteMsg::RevokeVote { poll_id, vote } => Err(ContractError::NotImplemented {  }),
    }
}

/// The command can be carried out.
pub open spec fn execute_defined(s: StateView, sender: Seq<char>, msg: ExecuteMsg) -> bool {
    match msg {
        ExecuteMsg::Vote { poll_id, vote } => vote_defined(s, sender, poll_id@, vote@),
        _ => true,
    }
}

/// The name under which a command reports its success.
pub open spec fn action_of(msg: ExecuteMsg) -> Seq<char> {
    match msg {
        ExecuteMsg::CreatePoll { .. } => "create_poll"@,
        ExecuteMsg::Vote { .. } => "vote"@,
        ExecuteMsg::DeletePoll { .. } => "delete_poll"@,
        ExecuteMsg::RevokeVote { .. } => "revoke_vote"@,
    }
}

/// A command was answered as `expected` says: refused with that error and
/// the state as it was, or reported under `action` with that state.
pub open spec fn answered(
    r: Result<Response, ContractError>,
    before: StateView,
    after: StateView,
    expected: Result<StateView, ContractError>,
    action: Seq<char>,
) -> bool {
    match expected {
        Err(e) => r == Err::<Response, ContractError>(e) && after == before,
        Ok(s) => r is Ok && attributes_of(r->Ok_0) == seq![("action"@, action)] && after == s,
    }
}

/// The identity that an initialization asks the host to validate.
pub fn effective_admin(info: &MessageInfo, msg: &InstantiateMsg) -> (r: String)
    ensures
        r@ == admin_of(info.sender@, text_of(msg.admin)),
{
    match &msg.admin {
        Some(a) => a.clone(),
        None => info.sender.clone(),
    }
}

/// Initializes the state. `validation` is the host's answer on the identity
/// that `effective_admin` gives: where it is an error, that error is
/// reported and nothing is written; otherwise the identity becomes the
/// administrator, over an earlier one if there is any, and the reply names
/// it.
pub fn instantiate(
    store: &mut Store,
    info: MessageInfo,
    msg: InstantiateMsg,
    validation: Result<(), StdError>,
) -> (r: Result<Response, ContractError>)
    requires
        old(store).wf(),
    ensures
        final(store).wf(),
        validation is Err ==> r == Err::<Response, ContractError>(ContractError::Std(validation->Err_0))
            && final(store)@ == old(store)@,
        validation is Ok ==> r is Ok && final(store)@ == old(store)@.with_config(
            admin_of(info.sender@, text_of(msg.admin)),
        ) && attributes_of(r->Ok_0) == seq![
            ("action"@, "instantiate"@),
            ("admin"@, admin_of(info.sender@, text_of(msg.admin))),
        ],
{
    match validation {
        Err(e) => Err(ContractError::Std(e)),
        Ok(_) => {
            let admin = effective_admin(&info, &msg);
            let reply = action_response("instantiate");
            proof {
                reveal_strlit("admin");
            }
            let reply = with_attribute(reply, "admin", admin.as_str());
            store.save_config(Config { admin });
            assert(attributes_of(reply) =~= seq![
                ("action"@, "instantiate"@),
                ("admin"@, admin_of(info.sender@, text_of(msg.admin))),
            ]);
            Ok(reply)
        },
    }
}

/// Carries out one command for its sender.
pub fn execute(store: &mut Store, info: MessageInfo, msg: ExecuteMsg) -> (r: Result<
    Response,
    ContractError,
>)
    requires
        old(store).wf(),
        execute_defined(old(store)@, info.sender@, msg),
    ensures
        final(store).wf(),
        answered(
            r,
            old(store)@,
            final(store)@,
            execute_result(old(store)@, info.sender@, msg),
            action_of(msg),
        ),
{
    match msg {
        ExecuteMsg::CreatePoll { poll_id, question, options } => execute_create_poll(
            store,
            info,
            poll_id,
            question,
            options,
        ),
        ExecuteMsg::Vote { poll_id, vote } => execute_vote(store, info, poll_id, vote),
        ExecuteMsg::DeletePoll { poll_id } => Err(ContractError::NotImplemented {  }),
        ExecuteMsg::RevokeVote { poll_id, vote } => Err(ContractError::NotImplemented {  }),
    }
}

/// Whether `execute` can carry out `msg` for the sender: the test of
/// `execute_defined`.
pub fn can_execute(store: &Store, info: &MessageInfo, msg: &ExecuteMsg) -> (r: bool)
    ensures
        r == execute_defined(store@, info.sender@, *msg),
{
    match msg {
        ExecuteMsg::Vote { poll_id, vote } => {
            match store.may_load_poll(poll_id) {
                Some(poll) => {
                    let prior = store.may_load_ballot(&info.sender, poll_id);
                    poll.accepts(&prior, vote)
                },
                None => true,
            }
        },
        _ => true,
    }
}

/// Opens a poll of `info.sender` under `poll_id`, with every tally at 0,
/// over the poll that was stored there if there is one. More than
/// `MAX_OPTIONS` options are refused and nothing is written.
pub fn execute_create_poll(
    store: &mut Store,
    info: MessageInfo,
    poll_id: String,
    question: String,
    options: Vec<String>,
) -> (r: Result<Response, ContractError>)
    requires
        old(store).wf(),
    ensures
        final(store).wf(),
        answered(
            r,
            old(store)@,
            final(store)@,
            create_poll_result(old(store)@, info.sender@, poll_id@, question@, labels_of(options@)),
            "create_poll"@,
        ),
{
    match Poll::new(info.sender, question, &options) {
        Err(e) => Err(e),
        Ok(poll) => {
            store.save_poll(poll_id, poll);
            Ok(action_response("create_poll"))
        },
    }
}

/// Casts the ballot of `info.sender` in the poll `poll_id` for the option
/// `vote`. A missing poll or option is refused before anything is written.
/// Otherwise the sender's ballot is set to `vote`, the option of an earlier
/// ballot loses one from its tally, and `vote` gains one.
pub fn execute_vote(store: &mut Store, info: MessageInfo, poll_id: String, vote: String) -> (r:
    Result<Response, ContractError>)
    requires
        old(store).wf(),
        vote_defined(old(store)@, info.sender@, poll_id@, vote@),
    ensures
        final(store).wf(),
        answered(
            r,
            old(store)@,
            final(store)@,
            vote_result(old(store)@, info.sender@, poll_id@, vote@),
            "vote"@,
        ),
{
    let mut poll = match store.may_load_poll(&poll_id) {
        Some(p) => p,
        None => {
            return Err(ContractError::PollNotFound {  });
        },
    };
    let prior = store.may_load_ballot(&info.sender, &poll_id);
    match poll.apply_vote(&prior, &vote) {
        Err(e) => Err(e),
        Ok(_) => {
            store.save_ballot(info.sender, poll_id.clone(), Ballot { option: vote });
            store.save_poll(poll_id, poll);
            Ok(action_response("vote"))
        },
    }
}

/// Answers one question. `validation` is the host's answer on the address
/// that the question names, and is not read where it names none.
pub fn query(store: &Store, msg: QueryMsg, validation: Result<(), StdError>) -> (r: Result<
    QueryResponse,
    ContractError,
>)
    ensures
        match msg {
            QueryMsg::AllPolls {  } => r matches Ok(QueryResponse::AllPolls(a)) && polls_of(a.polls@)
                == store@.polls.map_values(|e: (Seq<char>, PollView)| e.1),
            QueryMsg::Poll { poll_id } => r matches Ok(QueryResponse::Poll(a)) && poll_of(a.poll)
                == store@.poll(poll_id@),
            QueryMsg::Vote { address, poll_id } => match validation {
                Err(e) => r == Err::<QueryResponse, ContractError>(ContractError::Std(e)),
                Ok(_) => r matches Ok(QueryResponse::Vote(a)) && ballot_choice(a.vote)
                    == store@.ballot(address@, poll_id@),
            },
            QueryMsg::ConfigUser {  } => r == Err::<QueryResponse, ContractError>(
                ContractError::NotImplemented {  },
            ),
            QueryMsg::AllVoteUser { address } => r == Err::<QueryResponse, ContractError>(
                ContractError::NotImplemented {  },
            ),
        },
{
    match msg {
        QueryMsg::AllPolls {  } => Ok(QueryResponse::AllPolls(query_all_polls(store))),
        QueryMsg::Poll { poll_id } => Ok(QueryResponse::Poll(query_poll(store, poll_id))),
        QueryMsg::Vote { address, poll_id } => match query_vote(store, validation, address, poll_id) {
            Ok(a) => Ok(QueryResponse::Vote(a)),
            Err(e) => Err(e),
        },
        QueryMsg::ConfigUser {  } => Err(ContractError::NotImplemented {  }),
        QueryMsg::AllVoteUser { address } => Err(ContractError::NotImplemented {  }),
    }
}

/// All polls, by ascending id; none where none is stored.
pub fn query_all_polls(store: &Store) -> (r: AllPollsResponse)
    ensures
        store.wf() ==> crate::order::ascending(store@.poll_ids()),
        polls_of(r.polls@) == store@.polls.map_values(|e: (Seq<char>, PollView)| e.1),
{
    let polls = store.all_polls();
    assert(polls_of(polls@) =~= store@.polls.map_values(|e: (Seq<char>, PollView)| e.1));
    AllPollsResponse { polls }
}

/// The poll stored under `poll_id`; none is an answer, not a failure.
pub fn query_poll(store: &Store, poll_id: String) -> (r: PollResponse)
    ensures
        poll_of(r.poll) == store@.poll(poll_id@),
{
    PollResponse { poll: store.may_load_poll(&poll_id) }
}

/// The ballot of `address` in the poll `poll_id`; none is an answer, not
/// a failure. `validation` is the host's answer on `address`: where it is an
/// error, that error is reported.
pub fn query_vote(store: &Store, validation: Result<(), StdError>, address: String, poll_id: String) -> (r:
    Result<VoteResponse, ContractError>)
    ensures
        validation is Err ==> r == Err::<VoteResponse, ContractError>(ContractError::Std(validation->Err_0)),
        validation is Ok ==> r is Ok && ballot_choice(r->Ok_0.vote) == store@.ballot(address@, poll_id@),
{
    match validation {
        Err(e) => Err(ContractError::Std(e)),
        Ok(_) => Ok(VoteResponse { vote: store.may_load_ballot(&address, &poll_id) }),
    }
}

} // verus!

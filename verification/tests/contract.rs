use cosmwasm_std::testing::MockApi;
use cosmwasm_std::{attr, Api, StdError};
use poll_contracts::contract::{
    can_execute, effective_admin, execute, execute_create_poll, execute_vote, instantiate, query,
    query_all_polls, query_poll, query_vote,
};
use poll_contracts::error::ContractError;
use poll_contracts::events::action_response;
use poll_contracts::msg::{ExecuteMsg, InstantiateMsg, MessageInfo, QueryMsg, QueryResponse};
use poll_contracts::order::key_less;
use poll_contracts::poll::{Ballot, Poll};
use poll_contracts::state::{Config, Store};

pub const ADDR1: &str = "addr1";
pub const ADDR2: &str = "addr2";

fn mock_info(sender: &str) -> MessageInfo {
    MessageInfo { sender: sender.to_string() }
}

fn validate(address: &str) -> Result<(), StdError> {
    MockApi::default().addr_validate(address).map(|_| ())
}

fn init(store: &mut Store, info: &MessageInfo, msg: InstantiateMsg) -> Result<cosmwasm_std::Response, ContractError> {
    let validation = validate(&effective_admin(info, &msg));
    instantiate(store, info.clone(), msg, validation)
}

fn create(store: &mut Store, sender: &str, id: &str, options: &[&str]) -> Result<cosmwasm_std::Response, ContractError> {
    let msg = ExecuteMsg::CreatePoll {
        poll_id: id.to_string(),
        question: "Which one?".to_string(),
        options: options.iter().map(|o| o.to_string()).collect(),
    };
    execute(store, mock_info(sender), msg)
}

fn vote(store: &mut Store, sender: &str, id: &str, label: &str) -> Result<cosmwasm_std::Response, ContractError> {
    let msg = ExecuteMsg::Vote { poll_id: id.to_string(), vote: label.to_string() };
    assert!(can_execute(store, &mock_info(sender), &msg));
    execute(store, mock_info(sender), msg)
}

fn tallies(store: &Store, id: &str) -> Vec<u64> {
    let poll = query_poll(store, id.to_string()).poll.unwrap();
    poll.options.iter().map(|o| o.1).collect()
}

fn choice(store: &Store, voter: &str, id: &str) -> Option<Ballot> {
    query_vote(store, Ok(()), voter.to_string(), id.to_string()).unwrap().vote
}

#[test]
fn test_instantiate() {
    let mut store = Store::new();
    let info = mock_info(ADDR1);

    let msg = InstantiateMsg { admin: None };
    let res = init(&mut store, &info, msg).unwrap();

    assert_eq!(
        res.attributes,
        vec![attr("action", "instantiate"), attr("admin", ADDR1)]
    )
}

#[test]
fn test_instantiate_with_admin() {
    let mut store = Store::new();
    let info = mock_info(ADDR1);

    let msg = InstantiateMsg { admin: Some(ADDR2.to_string()) };
    let res = init(&mut store, &info, msg).unwrap();

    assert_eq!(
        res.attributes,
        vec![attr("action", "instantiate"), attr("admin", ADDR2)]
    )
}

#[test]
fn test_execute_create_poll_valid() {
    let mut store = Store::new();
    let info = mock_info(ADDR1);
    let msg = InstantiateMsg { admin: None };
    let _res = init(&mut store, &info, msg).unwrap();

    let msg = ExecuteMsg::CreatePoll {
        poll_id: "some_id".to_string(),
        question: "What's your favourite Cosmos coin?".to_string(),
        options: vec![
            "Cosmos Hub".to_string(),
            "Juno".to_string(),
            "Osmosis".to_string(),
        ],
    };

    let _res = execute(&mut store, info, msg).unwrap();
}

#[test]
fn test_execute_create_poll_invalid() {
    let mut store = Store::new();
    let info = mock_info(ADDR1);
    let msg = InstantiateMsg { admin: None };
    let _res = init(&mut store, &info, msg).unwrap();

    let msg = ExecuteMsg::CreatePoll {
        poll_id: "some_id".to_string(),
        question: "What's your favorite number?".to_string(),
        options: vec![
            "1".to_string(),
            "2".to_string(),
            "3".to_string(),
            "4".to_string(),
            "5".to_string(),
            "6".to_string(),
            "7".to_string(),
            "8".to_string(),
            "9".to_string(),
            "10".to_string(),
            "11".to_string(),
        ],
    };

    let _err = execute(&mut store, info, msg).unwrap_err();
}

#[test]
fn test_execute_vote_valid() {
    let mut store = Store::new();
    let info = mock_info(ADDR1);
    let msg = InstantiateMsg { admin: None };
    let _res = init(&mut store, &info, msg).unwrap();

    let msg = ExecuteMsg::CreatePoll {
        poll_id: "some_id".to_string(),
        question: "What's your favorite Cosmos coin?".to_string(),
        options: vec![
            "Cosmos Hub".to_string(),
            "Juno".to_string(),
            "Osmosis".to_string(),
        ],
    };
    let _res = execute(&mut store, info.clone(), msg).unwrap();

    let msg = ExecuteMsg::Vote {
        poll_id: "some_id".to_string(),
        vote: "Juno".to_string(),
    };
    let _res = execute(&mut store, info.clone(), msg).unwrap();

    let msg = ExecuteMsg::Vote {
        poll_id: "some_id".to_string(),
        vote: "Osmosis".to_string(),
    };
    let _res = execute(&mut store, info, msg).unwrap();
}

#[test]
fn test_execute_vote_invalid() {
    let mut store = Store::new();
    let info = mock_info(ADDR1);
    let msg = InstantiateMsg { admin: None };
    let _res = init(&mut store, &info, msg).unwrap();

    let msg = ExecuteMsg::Vote {
        poll_id: "some_id".to_string(),
        vote: "Juno".to_string(),
    };
    let _err = execute(&mut store, info.clone(), msg).unwrap_err();

    let msg = ExecuteMsg::CreatePoll {
        poll_id: "some_id".to_string(),
        question: "What's your favourite cosmos coin?".to_string(),
        options: vec![
            "Cosmos Hub".to_string(),
            "Juno".to_string(),
            "Osmosis".to_string(),
        ],
    };
    let _res = execute(&mut store, info.clone(), msg).unwrap();

    let msg = ExecuteMsg::Vote {
        poll_id: "some_id".to_string(),
        vote: "DVPN".to_string(),
    };
    let _err = execute(&mut store, info, msg).unwrap_err();
}

#[test]
fn instantiate_sets_the_named_admin_or_the_sender() {
    let mut store = Store::new();
    assert_eq!(store.load_config(), None);
    init(&mut store, &mock_info(ADDR1), InstantiateMsg { admin: None }).unwrap();
    assert_eq!(store.load_config(), Some(Config { admin: ADDR1.to_string() }));
    init(&mut store, &mock_info(ADDR1), InstantiateMsg { admin: Some(ADDR2.to_string()) }).unwrap();
    assert_eq!(store.load_config(), Some(Config { admin: ADDR2.to_string() }));
    assert_eq!(
        effective_admin(&mock_info(ADDR1), &InstantiateMsg { admin: Some(ADDR2.to_string()) }),
        ADDR2
    );
    assert_eq!(effective_admin(&mock_info(ADDR1), &InstantiateMsg { admin: None }), ADDR1);
}

#[test]
fn instantiate_reports_an_invalid_identity_and_writes_nothing() {
    let mut store = Store::new();
    let err = init(&mut store, &mock_info(ADDR1), InstantiateMsg { admin: Some("".to_string()) })
        .unwrap_err();
    assert!(matches!(err, ContractError::Std(_)));
    assert_eq!(store, Store::new());
}

#[test]
fn action_response_holds_one_attribute() {
    let res = action_response("vote");
    assert_eq!(res.attributes, vec![attr("action", "vote")]);
    assert!(res.messages.is_empty());
    assert!(res.events.is_empty());
    assert_eq!(res.data, None);
}

#[test]
fn commands_report_their_action() {
    let mut store = Store::new();
    let res = create(&mut store, ADDR1, "p1", &["A", "B"]).unwrap();
    assert_eq!(res.attributes, vec![attr("action", "create_poll")]);
    let res = vote(&mut store, ADDR1, "p1", "A").unwrap();
    assert_eq!(res.attributes, vec![attr("action", "vote")]);
}

#[test]
fn create_poll_with_eleven_options_fails_and_changes_nothing() {
    let mut store = Store::new();
    create(&mut store, ADDR1, "p0", &["A"]).unwrap();
    let before = store.clone();
    let options = ["1", "2", "3", "4", "5", "6", "7", "8", "9", "10", "11"];
    let err = create(&mut store, ADDR1, "p1", &options).unwrap_err();
    assert!(matches!(err, ContractError::TooManyOptions {}));
    assert_eq!(store, before);
    let err = create(&mut store, ADDR1, "p0", &options).unwrap_err();
    assert!(matches!(err, ContractError::TooManyOptions {}));
    assert_eq!(store, before);
}

#[test]
fn create_poll_with_ten_options_has_zero_tallies_in_order() {
    let mut store = Store::new();
    let options = ["1", "2", "3", "4", "5", "6", "7", "8", "9", "10"];
    create(&mut store, ADDR1, "p1", &options).unwrap();
    let poll = query_poll(&store, "p1".to_string()).poll.unwrap();
    assert_eq!(poll.creator, ADDR1);
    assert_eq!(poll.question, "Which one?");
    let expected: Vec<(String, u64)> = options.iter().map(|o| (o.to_string(), 0)).collect();
    assert_eq!(poll.options, expected);
}

#[test]
fn create_poll_accepts_no_options_and_repeated_labels() {
    let mut store = Store::new();
    create(&mut store, ADDR1, "none", &[]).unwrap();
    assert_eq!(tallies(&store, "none"), Vec::<u64>::new());
    create(&mut store, ADDR1, "twice", &["A", "A"]).unwrap();
    vote(&mut store, ADDR1, "twice", "A").unwrap();
    assert_eq!(tallies(&store, "twice"), vec![1, 0]);
}

#[test]
fn create_poll_replaces_the_poll_under_the_same_id() {
    let mut store = Store::new();
    create(&mut store, ADDR1, "p1", &["A", "B"]).unwrap();
    create(&mut store, ADDR2, "p1", &["C"]).unwrap();
    let poll = query_poll(&store, "p1".to_string()).poll.unwrap();
    assert_eq!(poll.creator, ADDR2);
    assert_eq!(poll.options, vec![("C".to_string(), 0)]);
    assert_eq!(query_all_polls(&store).polls.len(), 1);
}

#[test]
fn vote_then_revote_moves_the_tally() {
    let mut store = Store::new();
    create(&mut store, ADDR1, "p1", &["A", "B", "C"]).unwrap();
    vote(&mut store, "X", "p1", "B").unwrap();
    assert_eq!(tallies(&store, "p1"), vec![0, 1, 0]);
    vote(&mut store, "X", "p1", "C").unwrap();
    assert_eq!(tallies(&store, "p1"), vec![0, 0, 1]);
    assert_eq!(choice(&store, "X", "p1"), Some(Ballot { option: "C".to_string() }));
}

#[test]
fn tallies_sum_to_the_number_of_voters() {
    let mut store = Store::new();
    create(&mut store, ADDR1, "p1", &["A", "B", "C"]).unwrap();
    create(&mut store, ADDR1, "p2", &["A"]).unwrap();
    vote(&mut store, "X", "p1", "A").unwrap();
    vote(&mut store, "Y", "p1", "A").unwrap();
    vote(&mut store, "Z", "p1", "C").unwrap();
    vote(&mut store, "X", "p2", "A").unwrap();
    assert_eq!(tallies(&store, "p1"), vec![2, 0, 1]);
    vote(&mut store, "Y", "p1", "B").unwrap();
    vote(&mut store, "Z", "p1", "B").unwrap();
    assert_eq!(tallies(&store, "p1"), vec![1, 2, 0]);
    assert_eq!(tallies(&store, "p1").iter().sum::<u64>(), 3);
    assert_eq!(tallies(&store, "p2"), vec![1]);
    assert_eq!(choice(&store, "X", "p1"), Some(Ballot { option: "A".to_string() }));
    assert_eq!(choice(&store, "Y", "p1"), Some(Ballot { option: "B".to_string() }));
    assert_eq!(choice(&store, "X", "p2"), Some(Ballot { option: "A".to_string() }));
    assert_eq!(choice(&store, "Y", "p2"), None);
}

#[test]
fn vote_on_a_missing_poll_fails_and_changes_nothing() {
    let mut store = Store::new();
    create(&mut store, ADDR1, "p1", &["A"]).unwrap();
    let before = store.clone();
    let err = vote(&mut store, "X", "p2", "A").unwrap_err();
    assert!(matches!(err, ContractError::PollNotFound {}));
    assert_eq!(store, before);
    let err = execute_vote(&mut store, mock_info("X"), "".to_string(), "A".to_string()).unwrap_err();
    assert!(matches!(err, ContractError::PollNotFound {}));
}

#[test]
fn vote_for_a_missing_option_fails_and_changes_nothing() {
    let mut store = Store::new();
    create(&mut store, ADDR1, "p1", &["A", "B"]).unwrap();
    let err = vote(&mut store, "X", "p1", "D").unwrap_err();
    assert!(matches!(err, ContractError::OptionNotFound {}));
    assert_eq!(choice(&store, "X", "p1"), None);
    assert_eq!(tallies(&store, "p1"), vec![0, 0]);

    vote(&mut store, "X", "p1", "B").unwrap();
    let before = store.clone();
    let err = vote(&mut store, "X", "p1", "D").unwrap_err();
    assert!(matches!(err, ContractError::OptionNotFound {}));
    assert_eq!(store, before);
    assert_eq!(choice(&store, "X", "p1"), Some(Ballot { option: "B".to_string() }));
    assert_eq!(tallies(&store, "p1"), vec![0, 1]);
}

#[test]
fn revote_for_the_same_option_keeps_the_tally() {
    let mut store = Store::new();
    create(&mut store, ADDR1, "p1", &["A", "B"]).unwrap();
    vote(&mut store, "X", "p1", "A").unwrap();
    let before = store.clone();
    vote(&mut store, "X", "p1", "A").unwrap();
    assert_eq!(store, before);
    assert_eq!(tallies(&store, "p1"), vec![1, 0]);
}

#[test]
fn a_ballot_that_the_poll_no_longer_counts_cannot_be_moved() {
    let mut store = Store::new();
    create(&mut store, ADDR1, "p1", &["A", "B"]).unwrap();
    vote(&mut store, "X", "p1", "A").unwrap();
    create(&mut store, ADDR1, "p1", &["A", "B"]).unwrap();
    let msg = ExecuteMsg::Vote { poll_id: "p1".to_string(), vote: "B".to_string() };
    assert!(!can_execute(&store, &mock_info("X"), &msg));
    let msg = ExecuteMsg::Vote { poll_id: "p1".to_string(), vote: "D".to_string() };
    assert!(can_execute(&store, &mock_info("X"), &msg));
    let msg = ExecuteMsg::Vote { poll_id: "p1".to_string(), vote: "B".to_string() };
    assert!(can_execute(&store, &mock_info("Y"), &msg));

    create(&mut store, ADDR1, "p1", &["C"]).unwrap();
    let msg = ExecuteMsg::Vote { poll_id: "p1".to_string(), vote: "C".to_string() };
    assert!(!can_execute(&store, &mock_info("X"), &msg));
}

#[test]
fn poll_accepts_tests_the_tallies() {
    let full = Poll {
        creator: ADDR1.to_string(),
        question: "q".to_string(),
        options: vec![("A".to_string(), u64::MAX), ("B".to_string(), 1)],
    };
    let a = "A".to_string();
    let b = "B".to_string();
    assert!(!full.accepts(&None, &a));
    assert!(full.accepts(&None, &b));
    assert!(full.accepts(&Some(Ballot { option: a.clone() }), &a));
    assert!(!full.accepts(&Some(Ballot { option: b.clone() }), &a));
    assert!(full.accepts(&Some(Ballot { option: a.clone() }), &b));
    assert!(full.accepts(&None, &"missing".to_string()));
    assert_eq!(full.position(&b), Some(1));
    assert_eq!(full.position(&"missing".to_string()), None);
}

#[test]
fn apply_vote_counts_on_the_poll() {
    let mut poll = Poll::new(ADDR1.to_string(), "q".to_string(), &vec!["A".to_string(), "B".to_string()])
        .unwrap();
    poll.apply_vote(&None, &"B".to_string()).unwrap();
    assert_eq!(poll.options, vec![("A".to_string(), 0), ("B".to_string(), 1)]);
    poll.apply_vote(&Some(Ballot { option: "B".to_string() }), &"A".to_string()).unwrap();
    assert_eq!(poll.options, vec![("A".to_string(), 1), ("B".to_string(), 0)]);
    let err = poll.apply_vote(&Some(Ballot { option: "A".to_string() }), &"C".to_string()).unwrap_err();
    assert!(matches!(err, ContractError::OptionNotFound {}));
    assert_eq!(poll.options, vec![("A".to_string(), 1), ("B".to_string(), 0)]);
    assert_eq!(poll.duplicate(), poll);
}

#[test]
fn unimplemented_commands_and_queries_fail() {
    let mut store = Store::new();
    create(&mut store, ADDR1, "p1", &["A"]).unwrap();
    let before = store.clone();
    let err = execute(&mut store, mock_info(ADDR1), ExecuteMsg::DeletePoll { poll_id: "p1".to_string() })
        .unwrap_err();
    assert!(matches!(err, ContractError::NotImplemented {}));
    let err = execute(
        &mut store,
        mock_info(ADDR1),
        ExecuteMsg::RevokeVote { poll_id: "p1".to_string(), vote: "A".to_string() },
    )
    .unwrap_err();
    assert!(matches!(err, ContractError::NotImplemented {}));
    assert_eq!(store, before);
    let err = query(&store, QueryMsg::ConfigUser {}, Ok(())).unwrap_err();
    assert!(matches!(err, ContractError::NotImplemented {}));
    let err = query(&store, QueryMsg::AllVoteUser { address: ADDR1.to_string() }, Ok(())).unwrap_err();
    assert!(matches!(err, ContractError::NotImplemented {}));
}

#[test]
fn query_poll_on_a_missing_id_is_not_an_error() {
    let store = Store::new();
    let res = query(&store, QueryMsg::Poll { poll_id: "missing".to_string() }, Ok(())).unwrap();
    match res {
        QueryResponse::Poll(p) => assert_eq!(p.poll, None),
        _ => panic!("wrong kind of answer"),
    }
    assert_eq!(query_poll(&store, "missing".to_string()).poll, None);
}

#[test]
fn query_all_polls_on_an_empty_store_is_empty() {
    let store = Store::new();
    assert_eq!(query_all_polls(&store).polls, vec![]);
    match query(&store, QueryMsg::AllPolls {}, Ok(())).unwrap() {
        QueryResponse::AllPolls(a) => assert!(a.polls.is_empty()),
        _ => panic!("wrong kind of answer"),
    }
}

#[test]
fn query_all_polls_lists_by_ascending_id() {
    let mut store = Store::new();
    for id in ["b", "a", "ab", "c", "", "B", "é"] {
        let msg = ExecuteMsg::CreatePoll {
            poll_id: id.to_string(),
            question: id.to_string(),
            options: vec![],
        };
        execute(&mut store, mock_info(ADDR1), msg).unwrap();
    }
    let listed: Vec<String> = query_all_polls(&store).polls.into_iter().map(|p| p.question).collect();
    assert_eq!(listed, vec!["", "B", "a", "ab", "b", "c", "é"]);
}

#[test]
fn query_vote_reports_the_ballot_or_the_host_error() {
    let mut store = Store::new();
    create(&mut store, ADDR1, "p1", &["A"]).unwrap();
    vote(&mut store, ADDR1, "p1", "A").unwrap();
    let msg = QueryMsg::Vote { address: ADDR1.to_string(), poll_id: "p1".to_string() };
    match query(&store, msg, validate(ADDR1)).unwrap() {
        QueryResponse::Vote(v) => assert_eq!(v.vote, Some(Ballot { option: "A".to_string() })),
        _ => panic!("wrong kind of answer"),
    }
    let msg = QueryMsg::Vote { address: ADDR2.to_string(), poll_id: "p1".to_string() };
    match query(&store, msg, validate(ADDR2)).unwrap() {
        QueryResponse::Vote(v) => assert_eq!(v.vote, None),
        _ => panic!("wrong kind of answer"),
    }
    let msg = QueryMsg::Vote { address: "".to_string(), poll_id: "p1".to_string() };
    let err = query(&store, msg, validate("")).unwrap_err();
    assert!(matches!(err, ContractError::Std(_)));
}

#[test]
fn key_less_orders_by_bytes() {
    assert!(key_less("a", "b"));
    assert!(!key_less("b", "a"));
    assert!(!key_less("a", "a"));
    assert!(key_less("", "a"));
    assert!(!key_less("", ""));
    assert!(key_less("a", "ab"));
    assert!(!key_less("ab", "a"));
    assert!(key_less("Z", "a"));
    assert!(key_less("z", "é"));
    assert!(key_less("ab", "b"));
}

#[test]
fn store_keeps_what_is_saved() {
    let mut store = Store::new();
    let poll = Poll::new(ADDR1.to_string(), "q".to_string(), &vec!["A".to_string()]).unwrap();
    store.save_poll("p1".to_string(), poll.clone());
    store.save_ballot("X".to_string(), "p1".to_string(), Ballot { option: "A".to_string() });
    store.save_ballot("X".to_string(), "p1".to_string(), Ballot { option: "B".to_string() });
    store.save_config(Config { admin: ADDR1.to_string() });
    assert_eq!(store.may_load_poll(&"p1".to_string()), Some(poll.clone()));
    assert_eq!(store.may_load_poll(&"p2".to_string()), None);
    assert_eq!(
        store.may_load_ballot(&"X".to_string(), &"p1".to_string()),
        Some(Ballot { option: "B".to_string() })
    );
    assert_eq!(store.may_load_ballot(&"p1".to_string(), &"X".to_string()), None);
    assert_eq!(store.all_polls(), vec![poll]);
    let err = execute_create_poll(
        &mut store,
        mock_info(ADDR1),
        "p2".to_string(),
        "q".to_string(),
        vec!["A".to_string(); 11],
    )
    .unwrap_err();
    assert!(matches!(err, ContractError::TooManyOptions {}));
}

#[test]
fn errors_have_their_messages() {
    assert_eq!(ContractError::Unauthorized {}.message(), "Unauthorized");
    assert_eq!(ContractError::TooManyOptions {}.message(), "Too many poll options");
    assert_eq!(ContractError::PollNotFound {}.message(), "Poll not found");
    assert_eq!(ContractError::OptionNotFound {}.message(), "Option dosn't found in the poll");
    assert_eq!(ContractError::NotImplemented {}.message(), "Not implemented");
    let host = ContractError::Std(StdError::generic_err("broken"));
    assert_eq!(host.message(), StdError::generic_err("broken").to_string());
    assert_eq!(host.message(), "Generic error: broken");
}

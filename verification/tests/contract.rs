use cosmwasm_std::testing::{mock_dependencies, mock_info};
use cosmwasm_std::{coins, Api};
use double_dice_roll::contract::{
    execute, execute_receive, execute_roll_dice, instantiate, query, query_history, query_outcome,
};
use double_dice_roll::error::ContractError;
use double_dice_roll::msg::{ExecuteMsg, InstantiateMsg, MessageInfo, NoisCallbackMsg, QueryMsg};
use double_dice_roll::response::{Attribute, ProxyExecuteMsg, Response, WasmExecute};
use double_dice_roll::state::State;

fn anyone() -> MessageInfo {
    MessageInfo { sender: "anyone".to_string() }
}

fn payload(first: u8, second: u8) -> Vec<u8> {
    let mut bytes = vec![0u8; 32];
    bytes[0] = first;
    bytes[1] = second;
    bytes
}

fn instantiated(proxy: &str) -> State {
    let mut state = State::new();
    let msg = InstantiateMsg { nois_proxy: proxy.to_string() };
    instantiate(&mut state, MessageInfo { sender: "creator".to_string() }, msg, true).unwrap();
    state
}

#[test]
fn proper_initialization() {
    let deps = mock_dependencies();
    let mut state = State::new();

    let msg = InstantiateMsg { nois_proxy: "address123".to_string() };
    let info = mock_info("creator", &coins(1000, "earth"));
    let proxy_is_valid = deps.api.addr_validate(&msg.nois_proxy).is_ok();
    let info = MessageInfo { sender: info.sender.into_string() };

    // we can just call .unwrap() to assert this was a success
    let res = instantiate(&mut state, info, msg, proxy_is_valid).unwrap();
    assert_eq!(0, res.messages.len());
}

#[test]
fn instantiate_logs_method_and_owner() {
    let mut state = State::new();
    let msg = InstantiateMsg { nois_proxy: "address123".to_string() };
    let info = MessageInfo { sender: "creator".to_string() };
    let res = instantiate(&mut state, info, msg, true).unwrap();
    assert_eq!(
        res.attributes,
        vec![
            Attribute { key: "method".to_string(), value: "instantiate".to_string() },
            Attribute { key: "owner".to_string(), value: "creator".to_string() },
        ]
    );
    assert_eq!(state.nois_proxy(), Some(&"address123".to_string()));
}

#[test]
fn instantiate_with_invalid_address_fails_and_sets_nothing() {
    let deps = mock_dependencies();
    let mut state = State::new();
    let msg = InstantiateMsg { nois_proxy: "X".to_string() };
    let proxy_is_valid = deps.api.addr_validate(&msg.nois_proxy).is_ok();
    assert!(!proxy_is_valid);
    let res = instantiate(&mut state, MessageInfo { sender: "creator".to_string() }, msg, proxy_is_valid);
    assert_eq!(res, Err(ContractError::InvalidProxyAddress));
    assert_eq!(state.nois_proxy(), None);
    let roll = execute_roll_dice(&state, anyone(), "job".to_string());
    assert_eq!(roll, Err(ContractError::NotFound));
}

#[test]
fn invalid_address_keeps_an_earlier_proxy() {
    let mut state = instantiated("address123");
    let msg = InstantiateMsg { nois_proxy: "other".to_string() };
    let res = instantiate(&mut state, anyone(), msg, false);
    assert_eq!(res, Err(ContractError::InvalidProxyAddress));
    assert_eq!(state.nois_proxy(), Some(&"address123".to_string()));
}

#[test]
fn roll_before_instantiate_fails() {
    let state = State::new();
    let res = execute_roll_dice(&state, anyone(), "job-1".to_string());
    assert_eq!(res, Err(ContractError::NotFound));
}

#[test]
fn roll_sends_one_request_to_the_proxy() {
    let state = instantiated("address123");
    let res = execute_roll_dice(&state, anyone(), "job-1".to_string()).unwrap();
    assert_eq!(
        res.messages,
        vec![WasmExecute {
            contract_addr: "address123".to_string(),
            msg: ProxyExecuteMsg::GetNextRandomness { callback_id: Some("job-1".to_string()) },
        }]
    );
    assert!(res.attributes.is_empty());
}

#[test]
fn roll_records_nothing() {
    let state = instantiated("address123");
    execute_roll_dice(&state, anyone(), "job-1".to_string()).unwrap();
    assert_eq!(query_outcome(&state, "job-1".to_string()), None);
    assert!(query_history(&state).is_empty());
}

#[test]
fn receive_records_the_example_outcome() {
    let mut state = instantiated("address123");
    let res = execute_receive(&mut state, anyone(), "job-1".to_string(), payload(3, 8));
    assert_eq!(res, Ok(Response::default()));
    assert_eq!(query_outcome(&state, "job-1".to_string()), Some(7));
}

#[test]
fn receive_follows_the_formula_for_every_pair_of_bytes() {
    let mut state = State::new();
    for first in 0..=255u8 {
        for second in 0..=255u8 {
            execute_receive(&mut state, anyone(), "job".to_string(), payload(first, second))
                .unwrap();
            let outcome = query_outcome(&state, "job".to_string()).unwrap();
            assert_eq!(outcome, (first % 6 + 1) + (second % 6 + 1));
            assert!((2..=12).contains(&outcome));
        }
    }
}

#[test]
fn receive_reaches_both_ends_of_the_range() {
    let mut state = State::new();
    execute_receive(&mut state, anyone(), "low".to_string(), payload(0, 6)).unwrap();
    execute_receive(&mut state, anyone(), "high".to_string(), payload(5, 255 - 4)).unwrap();
    assert_eq!(query_outcome(&state, "low".to_string()), Some(2));
    assert_eq!(query_outcome(&state, "high".to_string()), Some(12));
}

#[test]
fn receive_ignores_all_but_the_first_two_bytes() {
    let mut state = State::new();
    let mut bytes = vec![0xffu8; 32];
    bytes[0] = 3;
    bytes[1] = 8;
    execute_receive(&mut state, anyone(), "job".to_string(), bytes).unwrap();
    assert_eq!(query_outcome(&state, "job".to_string()), Some(7));
}

#[test]
fn receive_rejects_randomness_of_other_lengths() {
    for len in [0usize, 1, 2, 31, 33, 64] {
        let mut state = State::new();
        let res = execute_receive(&mut state, anyone(), "job".to_string(), vec![3u8; len]);
        assert_eq!(res, Err(ContractError::InvalidRandomness));
        assert_eq!(query_outcome(&state, "job".to_string()), None);
        assert!(query_history(&state).is_empty());
    }
}

#[test]
fn rejected_randomness_keeps_the_earlier_outcome() {
    let mut state = State::new();
    execute_receive(&mut state, anyone(), "job".to_string(), payload(3, 8)).unwrap();
    let res = execute_receive(&mut state, anyone(), "job".to_string(), vec![1u8; 31]);
    assert_eq!(res, Err(ContractError::InvalidRandomness));
    assert_eq!(query_outcome(&state, "job".to_string()), Some(7));
}

#[test]
fn outcome_is_absent_until_delivered() {
    let mut state = instantiated("address123");
    assert_eq!(query_outcome(&state, "job-1".to_string()), None);
    execute_roll_dice(&state, anyone(), "job-1".to_string()).unwrap();
    assert_eq!(query_outcome(&state, "job-1".to_string()), None);
    execute_receive(&mut state, anyone(), "job-2".to_string(), payload(1, 1)).unwrap();
    assert_eq!(query_outcome(&state, "job-1".to_string()), None);
    execute_receive(&mut state, anyone(), "job-1".to_string(), payload(4, 4)).unwrap();
    assert_eq!(query_outcome(&state, "job-1".to_string()), Some(10));
    assert_eq!(query_outcome(&state, "job-2".to_string()), Some(4));
}

#[test]
fn same_delivery_twice_is_as_once() {
    let mut once = State::new();
    execute_receive(&mut once, anyone(), "job".to_string(), payload(3, 8)).unwrap();
    let mut twice = State::new();
    execute_receive(&mut twice, anyone(), "job".to_string(), payload(3, 8)).unwrap();
    execute_receive(&mut twice, anyone(), "job".to_string(), payload(3, 8)).unwrap();
    assert_eq!(query_outcome(&twice, "job".to_string()), Some(7));
    assert_eq!(query_history(&twice), query_history(&once));
    assert_eq!(query_history(&twice), vec!["job:7".to_string()]);
}

#[test]
fn later_delivery_wins() {
    let mut state = State::new();
    execute_receive(&mut state, anyone(), "job".to_string(), payload(3, 8)).unwrap();
    execute_receive(&mut state, anyone(), "job".to_string(), payload(5, 5)).unwrap();
    assert_eq!(query_outcome(&state, "job".to_string()), Some(12));
    assert_eq!(query_history(&state), vec!["job:12".to_string()]);
}

#[test]
fn history_is_in_ascending_order_of_job_id() {
    let mut state = State::new();
    let ids = ["b", "a", "ab", "B", "", "10", "9", "a b", "z", "\u{e9}", "aa"];
    for (i, id) in ids.iter().enumerate() {
        execute_receive(&mut state, anyone(), id.to_string(), payload(i as u8, 0)).unwrap();
    }
    assert_eq!(
        query_history(&state),
        vec![
            ":6", "10:7", "9:2", "B:5", "a:3", "a b:3", "aa:6", "ab:4", "b:2", "z:4",
            "\u{e9}:5",
        ]
    );
}

#[test]
fn history_agrees_with_the_order_of_strings() {
    let mut state = State::new();
    let mut ids: Vec<String> = Vec::new();
    let mut seed: u32 = 12345;
    for _ in 0..200 {
        seed = seed.wrapping_mul(1103515245).wrapping_add(12345);
        let len = (seed >> 16) % 4;
        let mut id = String::new();
        for k in 0..len {
            seed = seed.wrapping_mul(1103515245).wrapping_add(12345);
            let pick = (seed >> 16) % 6;
            id.push(['a', 'b', 'Z', '0', '\u{7ff}', '\u{10000}'][((pick + k) % 6) as usize]);
        }
        execute_receive(&mut state, anyone(), id.clone(), payload(0, 0)).unwrap();
        ids.push(id);
    }
    ids.sort();
    ids.dedup();
    let expected: Vec<String> = ids.iter().map(|id| format!("{id}:2")).collect();
    assert_eq!(query_history(&state), expected);
}

#[test]
fn execute_dispatches_both_messages() {
    let mut state = instantiated("address123");
    let roll = execute(&mut state, anyone(), ExecuteMsg::RollDice { job_id: "job".to_string() })
        .unwrap();
    assert_eq!(roll.messages.len(), 1);
    assert_eq!(roll.messages[0].contract_addr, "address123");
    let callback = NoisCallbackMsg { id: "job".to_string(), randomness: payload(3, 8) };
    let receive = execute(&mut state, anyone(), ExecuteMsg::Receive(callback)).unwrap();
    assert_eq!(receive, Response::default());
    assert_eq!(query_outcome(&state, "job".to_string()), Some(7));
    let short = NoisCallbackMsg { id: "job".to_string(), randomness: vec![] };
    assert_eq!(
        execute(&mut state, anyone(), ExecuteMsg::Receive(short)),
        Err(ContractError::InvalidRandomness)
    );
}

#[test]
fn execute_roll_without_proxy_fails() {
    let mut state = State::new();
    let res = execute(&mut state, anyone(), ExecuteMsg::RollDice { job_id: "job".to_string() });
    assert_eq!(res, Err(ContractError::NotFound));
}

#[test]
fn query_answers_in_json() {
    let mut state = State::new();
    let absent = query(&state, QueryMsg::QueryOutcome { job_id: "job".to_string() }).unwrap();
    assert_eq!(absent, b"null".to_vec());
    let empty = query(&state, QueryMsg::GetHistoryOfRounds {}).unwrap();
    assert_eq!(empty, b"[]".to_vec());
    execute_receive(&mut state, anyone(), "job".to_string(), payload(3, 8)).unwrap();
    execute_receive(&mut state, anyone(), "a\"b".to_string(), payload(5, 5)).unwrap();
    let present = query(&state, QueryMsg::QueryOutcome { job_id: "job".to_string() }).unwrap();
    assert_eq!(present, b"7".to_vec());
    let twelve = query(&state, QueryMsg::QueryOutcome { job_id: "a\"b".to_string() }).unwrap();
    assert_eq!(twelve, b"12".to_vec());
    let history = query(&state, QueryMsg::GetHistoryOfRounds {}).unwrap();
    assert_eq!(history, br#"["a\"b:12","job:7"]"#.to_vec());
}

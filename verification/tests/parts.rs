use cosmwasm_std::StdError;
use double_dice_roll::codec::{encode_lines, encode_outcome, encoded_or_error};
use double_dice_roll::dice::{double_roll, roll_die, MAX_OUTCOME, MIN_OUTCOME, RANDOMNESS_LEN};
use double_dice_roll::error::ContractError;
use double_dice_roll::order::{rank, Rank};
use double_dice_roll::response::{Attribute, ProxyExecuteMsg, Response, WasmExecute};
use double_dice_roll::state::State;
use double_dice_roll::store::OutcomeStore;
use double_dice_roll::text::{decimal_string, format_entry};

#[test]
fn die_faces_cycle_from_one_to_six() {
    assert_eq!(roll_die(0), 1);
    assert_eq!(roll_die(5), 6);
    assert_eq!(roll_die(6), 1);
    assert_eq!(roll_die(3), 4);
    assert_eq!(roll_die(8), 3);
    assert_eq!(roll_die(255), 4);
}

#[test]
fn double_roll_needs_thirty_two_bytes() {
    assert_eq!(RANDOMNESS_LEN, 32);
    assert_eq!((MIN_OUTCOME, MAX_OUTCOME), (2, 12));
    let mut bytes = vec![0u8; 32];
    bytes[0] = 3;
    bytes[1] = 8;
    assert_eq!(double_roll(&bytes), Some(7));
    assert_eq!(double_roll(&bytes[..31].to_vec()), None);
    bytes.push(0);
    assert_eq!(double_roll(&bytes), None);
    assert_eq!(double_roll(&Vec::new()), None);
}

#[test]
fn rank_orders_by_bytes() {
    assert_eq!(rank("a", "b"), Rank::Before);
    assert_eq!(rank("b", "a"), Rank::After);
    assert_eq!(rank("a", "a"), Rank::Same);
    assert_eq!(rank("", ""), Rank::Same);
    assert_eq!(rank("", "a"), Rank::Before);
    assert_eq!(rank("a", ""), Rank::After);
    assert_eq!(rank("a", "ab"), Rank::Before);
    assert_eq!(rank("ab", "a"), Rank::After);
    assert_eq!(rank("B", "a"), Rank::Before);
    assert_eq!(rank("10", "9"), Rank::Before);
    assert_eq!(rank("z", "\u{e9}"), Rank::Before);
    assert_eq!(rank("\u{ffff}", "\u{10000}"), Rank::Before);
}

#[test]
fn decimal_string_writes_plain_decimal() {
    assert_eq!(decimal_string(0), "0");
    assert_eq!(decimal_string(7), "7");
    assert_eq!(decimal_string(9), "9");
    assert_eq!(decimal_string(10), "10");
    assert_eq!(decimal_string(12), "12");
    assert_eq!(decimal_string(99), "99");
    assert_eq!(decimal_string(100), "100");
    assert_eq!(decimal_string(101), "101");
    assert_eq!(decimal_string(255), "255");
    for n in 0..=255u8 {
        assert_eq!(decimal_string(n), format!("{n}"));
    }
}

#[test]
fn format_entry_joins_with_a_colon() {
    assert_eq!(format_entry("job-1", 7), "job-1:7");
    assert_eq!(format_entry("", 12), ":12");
    assert_eq!(format_entry("a:b", 2), "a:b:2");
}

#[test]
fn empty_store_holds_nothing() {
    let store = OutcomeStore::new();
    assert_eq!(store.may_load("job"), None);
    assert!(store.history().is_empty());
}

#[test]
fn fresh_state_is_empty() {
    let state = State::new();
    assert_eq!(state.nois_proxy(), None);
    assert_eq!(state.outcomes().may_load(""), None);
    assert!(state.outcomes().history().is_empty());
}

#[test]
fn restore_binds_records_in_turn() {
    let records = vec![
        ("b".to_string(), 5u8),
        ("a".to_string(), 12),
        ("b".to_string(), 2),
        ("c".to_string(), 7),
    ];
    let state = State::restore(Some("address123".to_string()), &records).unwrap();
    assert_eq!(state.nois_proxy(), Some(&"address123".to_string()));
    assert_eq!(state.outcomes().may_load("a"), Some(12));
    assert_eq!(state.outcomes().may_load("b"), Some(2));
    assert_eq!(state.outcomes().may_load("c"), Some(7));
    assert_eq!(state.outcomes().may_load("d"), None);
    assert_eq!(state.outcomes().history(), vec!["a:12", "b:2", "c:7"]);
}

#[test]
fn restore_rejects_what_no_dice_can_show() {
    assert!(State::restore(None, &vec![("a".to_string(), 1u8)]).is_none());
    assert!(State::restore(None, &vec![("a".to_string(), 13u8)]).is_none());
    assert!(State::restore(None, &vec![("a".to_string(), 0u8)]).is_none());
    assert!(State::restore(None, &vec![("a".to_string(), 7u8), ("b".to_string(), 255)]).is_none());
    assert!(State::restore(None, &vec![("a".to_string(), 2u8), ("b".to_string(), 12)]).is_some());
    assert!(State::restore(None, &Vec::new()).is_some());
}

#[test]
fn store_finds_every_record_among_many() {
    let mut records: Vec<(String, u8)> = Vec::new();
    for i in 0..100u32 {
        let id = format!("job-{}", (i * 37) % 100);
        records.push((id, (i % 11) as u8 + 2));
    }
    let state = State::restore(None, &records).unwrap();
    for (id, outcome) in &records {
        assert_eq!(state.outcomes().may_load(id), Some(*outcome));
    }
    assert_eq!(state.outcomes().may_load("job-100"), None);
    assert_eq!(state.outcomes().may_load("job"), None);
    let lines = state.outcomes().history();
    assert_eq!(lines.len(), 100);
    let mut sorted = lines.clone();
    sorted.sort();
    assert_eq!(lines[0], "job-0:2");
    let mut ids: Vec<String> = records.iter().map(|(id, _)| id.clone()).collect();
    ids.sort();
    for (line, id) in lines.iter().zip(ids.iter()) {
        assert!(line.starts_with(&format!("{id}:")));
    }
}

#[test]
fn response_builders_append() {
    let empty = Response::new();
    assert!(empty.messages.is_empty());
    assert!(empty.attributes.is_empty());
    assert_eq!(empty, Response::default());
    let request = WasmExecute {
        contract_addr: "proxy".to_string(),
        msg: ProxyExecuteMsg::GetNextRandomness { callback_id: None },
    };
    let response = Response::new()
        .add_attribute("k1", "v1".to_string())
        .add_message(request.clone())
        .add_attribute("k2", "v2".to_string());
    assert_eq!(response.messages, vec![request]);
    assert_eq!(
        response.attributes,
        vec![
            Attribute { key: "k1".to_string(), value: "v1".to_string() },
            Attribute { key: "k2".to_string(), value: "v2".to_string() },
        ]
    );
}

#[test]
fn encode_outcome_writes_a_number_or_null() {
    assert_eq!(encode_outcome(None), Ok(b"null".to_vec()));
    assert_eq!(encode_outcome(Some(2)), Ok(b"2".to_vec()));
    assert_eq!(encode_outcome(Some(12)), Ok(b"12".to_vec()));
    for n in 0..=255u8 {
        assert_eq!(encode_outcome(Some(n)), Ok(format!("{n}").into_bytes()));
    }
}

#[test]
fn encode_lines_writes_an_array_of_strings() {
    assert_eq!(encode_lines(&Vec::new()), Ok(b"[]".to_vec()));
    let lines = vec!["a:7".to_string(), "b\\c:12".to_string(), "\n:2".to_string()];
    assert_eq!(encode_lines(&lines), Ok(br#"["a:7","b\\c:12","\n:2"]"#.to_vec()));
}

#[test]
fn failed_encoding_is_a_serialize_error() {
    assert_eq!(encoded_or_error(Ok(vec![1, 2, 3])), Ok(vec![1, 2, 3]));
    assert_eq!(
        encoded_or_error(Err(StdError::generic_err("full"))),
        Err(ContractError::Serialize)
    );
}

use executionbackup::block::{best_block, block_value, blocks_reply, parse_hex, BlockValue};
use executionbackup::forkchoice::{
    fcu_consensus, fcu_logic, fcu_majority, make_syncing_str, needs_verification, votes_answer,
    FcuAnswer, FcuConsensus,
};
use executionbackup::json::Json;

const VALID: &str = "{\"result\":{\"payloadStatus\":{\"status\":\"VALID\"}}}";
const INVALID: &str = "{\"result\":{\"payloadStatus\":{\"status\":\"INVALID\"}}}";
const REQUEST: &str = "{\"id\":3,\"method\":\"engine_newPayloadV1\",\"params\":[{\"blockHash\":\"0xab\"},2]}";

fn strings(texts: &[&str]) -> Vec<String> {
    texts.iter().map(|t| t.to_string()).collect()
}

fn block(value: &str) -> String {
    format!("{{\"result\":{{\"executionPayload\":{{}},\"blockValue\":\"{}\"}}}}", value)
}

#[test]
fn the_most_frequent_answer_wins() {
    let results = strings(&["a", "b", "b", "c", "b", "a"]);
    assert_eq!(fcu_majority(&results, 3), Some("b".to_string()));
    assert_eq!(fcu_majority(&results, 4), None);
    assert_eq!(fcu_majority(&results, 0), Some("b".to_string()));
}

#[test]
fn the_earliest_of_equally_frequent_answers_wins() {
    assert_eq!(fcu_majority(&strings(&["a", "b", "b", "a"]), 2), Some("a".to_string()));
    assert_eq!(fcu_majority(&strings(&["a", "b", "b", "a"]), 3), None);
}

#[test]
fn no_answers_have_no_majority() {
    assert_eq!(fcu_majority(&Vec::new(), 1), None);
    assert_eq!(fcu_majority(&Vec::new(), 0), Some(String::new()));
}

#[test]
fn order_makes_no_difference_to_a_clear_majority() {
    for results in [["a", "b", "b"], ["b", "a", "b"], ["b", "b", "a"]] {
        assert_eq!(fcu_majority(&strings(&results), 2), Some("b".to_string()));
    }
}

#[test]
fn a_syncing_answer_is_json() {
    let text = make_syncing_str(&42, "engine_forkchoiceUpdatedV1", Ok(()));
    assert_eq!(
        text,
        "{\"id\":42,\"jsonrpc\":\"2.0\",\"payloadId\":null,\"result\":{\"payloadStatus\":{\"latestValidHash\":null,\"status\":\"SYNCING\",\"validationError\":null}}}"
    );
    let back = Json::parse(&text).unwrap().value;
    assert_eq!(back["id"], 42);
    assert_eq!(back["result"]["payloadStatus"]["status"], "SYNCING");
}

#[test]
fn a_syncing_answer_depends_on_the_number_alone() {
    let text = make_syncing_str(&7, "engine_newPayloadV2", Ok(()));
    assert_eq!(make_syncing_str(&7, "engine_newPayloadV1", Ok(())), text);
    assert_eq!(make_syncing_str(&7, "x", Err("bad".to_string())), text);
    assert_ne!(make_syncing_str(&8, "engine_newPayloadV2", Ok(())), text);
}

#[test]
fn fewer_nodes_suffice_for_a_majority() {
    let results = strings(&["a", "b", "a", "c", "a"]);
    for count in 0..=3 {
        assert_eq!(fcu_majority(&results, count), Some("a".to_string()));
    }
    assert_eq!(fcu_majority(&results, 4), None);
}

#[test]
fn only_one_method_is_verified() {
    assert!(needs_verification("engine_newPayloadV1"));
    assert!(!needs_verification("engine_newPayloadV2"));
    assert!(!needs_verification("\"engine_newPayloadV1\""));
    let bad = || Err("bad block hash".to_string());
    assert_eq!(make_syncing_str(&1, "engine_newPayloadV1", bad()), "bad block hash");
    assert_eq!(
        make_syncing_str(&1, "engine_newPayloadV2", bad()),
        make_syncing_str(&1, "engine_newPayloadV1", Ok(()))
    );
}

fn expect_syncing(answer: Option<FcuAnswer>, expected: &str) {
    match answer {
        Some(FcuAnswer::Syncing { method, payload }) => {
            assert_eq!(method, expected);
            assert_eq!(payload.to_text(), "{\"blockHash\":\"0xab\"}");
        }
        other => panic!("{:?}", other),
    }
}

#[test]
fn without_answers_the_payload_is_verified() {
    expect_syncing(fcu_logic(&Vec::new(), 0, REQUEST), "engine_newPayloadV1");
}

#[test]
fn without_a_majority_the_payload_is_verified() {
    expect_syncing(fcu_logic(&strings(&[VALID, "x"]), 2, REQUEST), "engine_newPayloadV1");
}

#[test]
fn a_majority_that_is_not_json_is_unclear() {
    expect_syncing(fcu_logic(&strings(&["x", "x", VALID]), 2, REQUEST), "\"engine_newPayloadV1\"");
    expect_syncing(fcu_logic(&strings(&["", "", VALID]), 2, REQUEST), "\"engine_newPayloadV1\"");
}

#[test]
fn an_invalid_majority_is_passed_on() {
    match fcu_logic(&strings(&[INVALID, VALID, INVALID]), 2, REQUEST) {
        Some(FcuAnswer::Reply { body }) => assert_eq!(body, INVALID),
        other => panic!("{:?}", other),
    }
}

#[test]
fn a_contradicted_majority_is_unclear() {
    expect_syncing(
        fcu_logic(&strings(&[VALID, VALID, INVALID]), 2, REQUEST),
        "\"engine_newPayloadV1\"",
    );
    assert!(matches!(
        fcu_consensus(&strings(&[VALID, VALID, INVALID]), 2),
        FcuConsensus::Unclear
    ));
}

#[test]
fn an_uncontradicted_majority_is_passed_on_and_shared() {
    match fcu_logic(&strings(&[VALID, "", "no json", VALID, "{}"]), 2, REQUEST) {
        Some(FcuAnswer::ReplyAndShare { body }) => assert_eq!(body, VALID),
        other => panic!("{:?}", other),
    }
}

#[test]
fn a_request_that_cannot_be_read_has_no_answer_where_it_is_needed() {
    assert!(fcu_logic(&Vec::new(), 1, "nope").is_none());
    assert!(fcu_logic(&Vec::new(), 1, "{\"method\":1}").is_none());
    assert!(fcu_logic(&strings(&["x"]), 1, "nope").is_none());
    assert!(matches!(
        fcu_logic(&strings(&[VALID]), 1, "nope"),
        Some(FcuAnswer::ReplyAndShare { .. })
    ));
    match fcu_logic(&strings(&["x"]), 1, "{\"method\":1}") {
        Some(FcuAnswer::Syncing { method, payload }) => {
            assert_eq!(method, "1");
            assert_eq!(payload.to_text(), "null");
        }
        other => panic!("{:?}", other),
    }
}

fn small(low: u128) -> Option<BlockValue> {
    Some(BlockValue { high: 0, low })
}

#[test]
fn hexadecimal_numbers_are_read() {
    assert_eq!(parse_hex("1f"), small(31));
    assert_eq!(parse_hex("FF"), small(255));
    assert_eq!(parse_hex("+0a"), small(10));
    assert_eq!(parse_hex("ffffffffffffffff"), small(u64::MAX as u128));
    assert_eq!(parse_hex("10000000000000000"), small(1 << 64));
    assert_eq!(parse_hex(""), None);
    assert_eq!(parse_hex("+"), None);
    assert_eq!(parse_hex("-1"), None);
    assert_eq!(parse_hex("1g"), None);
    assert_eq!(parse_hex("++1"), None);
    let longest = "f".repeat(32);
    for text in ["1f", "FF", "+0a", "10000000000000000", "", "+", "-1", "1 ", longest.as_str()] {
        assert_eq!(
            parse_hex(text),
            u128::from_str_radix(text, 16).ok().map(|low| BlockValue { high: 0, low })
        );
    }
}

#[test]
fn numbers_have_256_bits() {
    let zeros = |n: usize| "0".repeat(n);
    assert_eq!(parse_hex(&format!("1{}", zeros(32))), Some(BlockValue { high: 1, low: 0 }));
    assert_eq!(
        parse_hex(&"f".repeat(64)),
        Some(BlockValue { high: u128::MAX, low: u128::MAX })
    );
    assert_eq!(
        parse_hex(&format!("{}{}", zeros(9), "f".repeat(64))),
        Some(BlockValue { high: u128::MAX, low: u128::MAX })
    );
    assert_eq!(
        parse_hex(&format!("a{}b{}", zeros(31), zeros(31))),
        Some(BlockValue { high: 0xa << 124, low: 0xb << 124 })
    );
    assert_eq!(parse_hex(&format!("1{}", zeros(64))), None);
    assert_eq!(parse_hex(&"f".repeat(65)), None);
    let one = BlockValue { high: 0, low: 1 };
    let big = BlockValue { high: 1, low: 0 };
    assert!(big.at_least(&one) && !one.at_least(&big) && one.at_least(&one));
}

#[test]
fn block_values_follow_two_bytes() {
    let value = |text: &str| block_value(&Json::parse(&block(text)).unwrap());
    assert_eq!(value("0x2a"), small(42));
    assert_eq!(value("zz2a"), small(42));
    assert_eq!(value("\u{e9}2a"), small(42));
    assert_eq!(value("\u{20ac}2a"), None);
    assert_eq!(value("a\u{e9}2a"), None);
    assert_eq!(value("0"), None);
    assert_eq!(value("0x"), None);
    assert_eq!(block_value(&Json::parse("{\"result\":{\"blockValue\":7}}").unwrap()), None);
    assert_eq!(block_value(&Json::null()), None);
}

#[test]
fn the_most_valuable_block_is_chosen() {
    let resps = vec![block("0x9"), block("0xff"), block("0x1f")];
    assert_eq!(best_block(&resps), Some((resps[1].clone(), 200)));
    let resps = vec![block("0x10000000000000000"), block("0x1")];
    assert_eq!(best_block(&resps), Some((resps[0].clone(), 200)));
    let resps = vec![block("0x2"), block(&format!("0x{}", "f".repeat(64))), block("0xffffffffffffffff")];
    assert_eq!(best_block(&resps), Some((resps[1].clone(), 200)));
}

#[test]
fn the_latest_of_equally_valuable_blocks_is_chosen() {
    let resps = vec![block("0xff"), block("0x0ff"), block("0x1")];
    assert_eq!(best_block(&resps), Some((resps[1].clone(), 200)));
    let resps = vec![block("0x0"), block("0x00")];
    assert_eq!(best_block(&resps), Some((resps[1].clone(), 200)));
}

#[test]
fn there_is_no_best_block_among_broken_ones() {
    assert_eq!(best_block(&Vec::new()), None);
    assert_eq!(best_block(&vec![block("0x1"), "no json".to_string()]), None);
    assert_eq!(best_block(&vec![block("0x1"), "{}".to_string()]), None);
    assert_eq!(best_block(&vec![block("0x1"), block("0xx")]), None);
    assert_eq!(best_block(&vec![block("0x1"), block(&format!("0x{}", "f".repeat(65)))]), None);
}

#[test]
fn answers_become_replies() {
    let reply = |answer: FcuAnswer| answer.into_reply(&9, Err("bad".to_string()));
    let body = || "body".to_string();
    assert_eq!(reply(FcuAnswer::Reply { body: body() }), ((body(), 200), false));
    assert_eq!(reply(FcuAnswer::ReplyAndShare { body: body() }), ((body(), 200), true));
    let syncing =
        |method: &str| FcuAnswer::Syncing { method: method.to_string(), payload: Json::null() };
    assert_eq!(reply(syncing("engine_newPayloadV1")), (("bad".to_string(), 200), false));
    assert_eq!(
        reply(syncing("\"engine_newPayloadV1\"")),
        ((make_syncing_str(&9, "", Ok(())), 200), false)
    );
}

#[test]
fn silent_nodes_do_not_count_towards_a_block() {
    let answer = |text: &str| Ok((block(text), 503));
    let outcomes = vec![answer("0x3"), Err("timed out".to_string()), answer("0x2")];
    assert_eq!(blocks_reply(&outcomes), Some((block("0x3"), 200)));
    assert_eq!(blocks_reply(&vec![Err("timed out".to_string())]), None);
}

#[test]
fn silent_nodes_do_not_vote() {
    let valid = || Ok((VALID.to_string(), 200));
    let silent = || Err("timed out".to_string());
    match votes_answer(&vec![silent(), valid(), silent(), valid()], 2, REQUEST) {
        Some(FcuAnswer::ReplyAndShare { body }) => assert_eq!(body, VALID),
        other => panic!("{:?}", other),
    }
    expect_syncing(votes_answer(&vec![silent(), silent()], 0, REQUEST), "engine_newPayloadV1");
    expect_syncing(votes_answer(&vec![silent(), valid()], 2, REQUEST), "engine_newPayloadV1");
    assert!(votes_answer(&vec![silent()], 1, "nope").is_none());
}

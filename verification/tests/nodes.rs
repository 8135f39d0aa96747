use executionbackup::auth::JwtKey;
use executionbackup::json::Json;
use executionbackup::node::{
    CheckAliveResult, CheckError, Node, StatusReply, OFFLINE, ONLINE, SYNCING, UNCHECKED,
};
use executionbackup::standing::{rank_alive, sort_out, standing, CheckResult, Standing};

fn node(url: &str) -> Node {
    Node::new(url.to_string())
}

fn answered(body: &str, resp_time: u128) -> StatusReply {
    StatusReply::Answered { body: body.as_bytes().to_vec(), resp_time }
}

fn found(status: u8, resp_time: u128) -> CheckResult {
    Ok(CheckAliveResult { status, resp_time })
}

fn urls(nodes: &Vec<Node>) -> Vec<&str> {
    nodes.iter().map(|n| n.url.as_str()).collect()
}

#[test]
fn a_new_node_is_unchecked() {
    let n = node("http://a:8551");
    assert_eq!(n.url, "http://a:8551");
    assert_eq!(n.status, UNCHECKED);
    assert_eq!(n.status, 4);
    assert_eq!(n.resp_time, 0);
}

#[test]
fn marks_change_the_status_alone() {
    let mut n = node("a");
    n.resp_time = 7;
    n.set_online();
    assert_eq!((n.url.as_str(), n.status, n.resp_time), ("a", ONLINE, 7));
    n.set_syncing();
    assert_eq!((n.url.as_str(), n.status, n.resp_time), ("a", SYNCING, 7));
    n.set_offline();
    assert_eq!((n.url.as_str(), n.status, n.resp_time), ("a", OFFLINE, 7));
    n.set_offline();
    assert_eq!(n.status, OFFLINE);
}

#[test]
fn a_node_in_sync_answers_false() {
    let mut n = node("a");
    let r = n.check_status(&answered("{\"jsonrpc\":\"2.0\",\"id\":1,\"result\":false}", 12));
    assert_eq!(r, Ok(CheckAliveResult { status: ONLINE, resp_time: 12 }));
    assert_eq!((n.status, n.resp_time), (ONLINE, 12));
}

#[test]
fn any_other_answer_means_syncing() {
    for body in [
        "{\"result\":true}",
        "{\"result\":{\"currentBlock\":\"0x1\"}}",
        "{\"result\":null}",
        "{\"error\":{}}",
        "[]",
        "false",
        "{\"result\":\"false\"}",
    ] {
        let mut n = node("a");
        let r = n.check_status(&answered(body, 3));
        assert_eq!(r, Ok(CheckAliveResult { status: SYNCING, resp_time: 3 }));
        assert_eq!((n.status, n.resp_time), (SYNCING, 3));
    }
}

#[test]
fn a_node_that_does_not_answer_is_offline() {
    let mut n = node("a");
    n.resp_time = 5;
    assert_eq!(n.check_status(&StatusReply::Unreachable), Err(CheckError::Unreachable));
    assert_eq!((n.status, n.resp_time), (OFFLINE, 5));
}

#[test]
fn a_node_that_answers_no_json_stays_as_it_was() {
    let mut n = node("a");
    assert_eq!(n.check_status(&answered("<html>", 9)), Err(CheckError::BadBody));
    assert_eq!((n.status, n.resp_time), (UNCHECKED, 0));
    assert_eq!(n.check_status(&StatusReply::Unreadable), Err(CheckError::BadBody));
    assert_eq!((n.status, n.resp_time), (UNCHECKED, 0));
    let broken = StatusReply::Answered { body: vec![0x22, 0xff, 0x22], resp_time: 1 };
    assert_eq!(n.check_status(&broken), Err(CheckError::BadBody));
}

#[test]
fn the_status_request_asks_whether_the_node_syncs() {
    let request = node("http://a").status_request(&JwtKey { secret: vec![5; 32] });
    assert_eq!(request.url, "http://a");
    assert_eq!(
        request.body,
        "{\"id\":1,\"jsonrpc\":\"2.0\",\"method\":\"eth_syncing\",\"params\":[]}"
    );
    assert_eq!(request.timeout_ms, None);
}

#[test]
fn requests_carry_data_and_token() {
    let request = node("http://a").do_request("data", "Bearer t");
    assert_eq!((request.url.as_str(), request.body.as_str()), ("http://a", "data"));
    assert_eq!((request.authorization.as_str(), request.timeout_ms), ("Bearer t", Some(2500)));
    let request = node("http://a").do_request_no_timeout("data", "Bearer t");
    assert_eq!((request.url.as_str(), request.body.as_str()), ("http://a", "data"));
    assert_eq!((request.authorization.as_str(), request.timeout_ms), ("Bearer t", None));
}

#[test]
fn standings_follow_the_status() {
    assert_eq!(standing(&found(0, 1)), Standing::Dead);
    assert_eq!(standing(&found(1, 1)), Standing::Alive);
    assert_eq!(standing(&found(2, 1)), Standing::Syncing);
    assert_eq!(standing(&found(3, 1)), Standing::Unlisted);
    assert_eq!(standing(&Err(CheckError::BadBody)), Standing::Dead);
}

#[test]
fn the_fastest_alive_node_comes_first() {
    let results = vec![found(1, 30), found(1, 10), found(2, 1), found(1, 20)];
    assert_eq!(rank_alive(&results), vec![1, 3, 0]);
}

#[test]
fn equally_fast_nodes_keep_their_order() {
    let results = vec![found(1, 10), found(1, 5), found(1, 10), found(1, 5), found(1, 10)];
    assert_eq!(rank_alive(&results), vec![1, 3, 0, 2, 4]);
    assert_eq!(rank_alive(&Vec::new()), Vec::<usize>::new());
}

#[test]
fn nodes_are_sorted_out_by_their_checks() {
    let nodes = vec![node("a"), node("b"), node("c"), node("d"), node("e"), node("f"), node("g")];
    let results = vec![
        found(2, 9),
        found(1, 30),
        Err(CheckError::Unreachable),
        found(1, 20),
        found(0, 1),
        found(2, 2),
        found(7, 1),
    ];
    let s = sort_out(&nodes, &results);
    assert_eq!(urls(&s.alive_nodes), vec!["d", "b"]);
    assert_eq!(urls(&s.alive_but_syncing_nodes), vec!["a", "f"]);
    assert_eq!(urls(&s.dead_nodes), vec!["c", "e"]);
    assert_eq!(s.primary_node.unwrap().url, "d");
}

#[test]
fn a_syncing_node_stands_in_for_alive_ones() {
    let nodes = vec![node("a"), node("b"), node("c")];
    let s = sort_out(&nodes, &vec![found(0, 0), found(2, 9), found(2, 1)]);
    assert_eq!(s.primary_node.unwrap().url, "b");
    let s = sort_out(&nodes, &vec![found(0, 0), found(0, 9), Err(CheckError::BadBody)]);
    assert!(s.primary_node.is_none());
    assert_eq!(urls(&s.dead_nodes), vec!["a", "b", "c"]);
}

#[test]
fn documents_are_built_and_read_back() {
    let doc = Json::object(vec![
        ("k", Json::signed(-5)),
        ("list", Json::array(vec![Json::unsigned(u64::MAX), Json::null(), Json::string("a\"b")])),
        ("k", Json::signed(6)),
    ]);
    let text = doc.to_text();
    assert_eq!(text, "{\"k\":6,\"list\":[18446744073709551615,null,\"a\\\"b\"]}");
    assert_eq!(Json::parse(&text).unwrap().value, doc.value);
    assert_eq!(Json::parse_bytes(text.as_bytes()).unwrap().value, doc.value);
    assert!(Json::parse("{").is_err());
    assert!(Json::parse_bytes(b"").is_err());
}

#[test]
fn deep_documents_are_read_back_within_the_limit() {
    let mut doc = Json::array(Vec::new());
    for _ in 1..127 {
        doc = Json::array(vec![doc]);
    }
    assert_eq!(Json::parse(&doc.to_text()).unwrap().value, doc.value);
    let mut deeper = Json::object(vec![("k", Json::signed(i64::MIN))]);
    for _ in 1..127 {
        deeper = Json::object(vec![("k", deeper)]);
    }
    assert_eq!(Json::parse(&deeper.to_text()).unwrap().value, deeper.value);
    assert!(Json::parse(&Json::array(vec![doc]).to_text()).is_err());
}

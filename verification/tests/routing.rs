use executionbackup::auth::JwtKey;
use executionbackup::json::Json;
use executionbackup::node::{Node, NodeRequest, StatusReply, OFFLINE, ONLINE, SYNCING};
use executionbackup::reply::{bodies, forwarded};
use executionbackup::request::{authorization, request_id, route_all, Route};
use executionbackup::router::{
    engine_route, Attempt, Choice, EngineAction, EngineRoute, NodeRouter, NormalAction,
};

fn router(urls: &[&str]) -> NodeRouter {
    let key = JwtKey { secret: vec![1, 2, 3] };
    NodeRouter::new(&key, urls.iter().map(|u| Node::new(u.to_string())).collect())
}

fn synced(resp_time: u128) -> StatusReply {
    StatusReply::Answered { body: b"{\"result\":false}".to_vec(), resp_time }
}

fn syncing(resp_time: u128) -> StatusReply {
    StatusReply::Answered { body: b"{\"result\":{}}".to_vec(), resp_time }
}

fn urls(nodes: &Vec<Node>) -> Vec<&str> {
    nodes.iter().map(|n| n.url.as_str()).collect()
}

fn request(method: &str) -> Json {
    Json::object(vec![("method", Json::string(method)), ("id", Json::unsigned(7))])
}

fn chosen(r: &mut NodeRouter) -> Node {
    match r.get_execution_node(Attempt::First) {
        Choice::Chosen { node } => node,
        other => panic!("{:?}", other),
    }
}

#[test]
fn a_new_router_knows_no_node() {
    let mut r = router(&["a", "b"]);
    assert_eq!(urls(&r.nodes), vec!["a", "b"]);
    assert_eq!(r.jwt_key.secret, vec![1, 2, 3]);
    assert!(r.alive_nodes.is_empty() && r.dead_nodes.is_empty());
    assert!(r.alive_but_syncing_nodes.is_empty() && r.primary_node.is_none());
    assert!(matches!(r.get_execution_node(Attempt::First), Choice::Recheck));
    assert!(matches!(r.get_execution_node(Attempt::AfterRecheck), Choice::Nobody));
}

#[test]
fn a_second_try_follows_a_new_round() {
    let mut r = router(&["a"]);
    assert!(matches!(r.get_execution_node(Attempt::First), Choice::Recheck));
    r.recheck(&vec![synced(3)]);
    match r.get_execution_node(Attempt::AfterRecheck) {
        Choice::Chosen { node } => assert_eq!((node.url.as_str(), node.status), ("a", ONLINE)),
        other => panic!("{:?}", other),
    }
}

#[test]
fn a_syncing_node_serves_where_none_is_alive() {
    let mut r = router(&["x", "a", "b"]);
    r.recheck(&vec![StatusReply::Unreachable, syncing(9), syncing(1)]);
    assert!(matches!(r.get_execution_node(Attempt::First), Choice::Recheck));
    match r.get_execution_node(Attempt::AfterRecheck) {
        Choice::Chosen { node } => assert_eq!((node.url.as_str(), node.status), ("a", SYNCING)),
        other => panic!("{:?}", other),
    }
    assert_eq!(r.primary_node.as_ref().unwrap().url, "a");
    r.primary_node = None;
    assert_eq!(r.choose_node().unwrap().url, "a");
    r.primary_node.as_mut().unwrap().set_offline();
    assert_eq!(r.choose_node().unwrap().status, SYNCING);
    r.recheck(&vec![StatusReply::Unreachable, StatusReply::Unreadable, StatusReply::Unreachable]);
    assert!(r.choose_node().is_none());
}

#[test]
fn a_dead_node_comes_back() {
    let mut r = router(&["a", "b"]);
    r.recheck(&vec![StatusReply::Unreachable, synced(5)]);
    assert_eq!((urls(&r.alive_nodes), urls(&r.dead_nodes)), (vec!["b"], vec!["a"]));
    r.recheck(&vec![synced(1), synced(5)]);
    assert_eq!((urls(&r.alive_nodes), urls(&r.dead_nodes)), (vec!["a", "b"], vec![]));
    assert_eq!(urls(&r.nodes), vec!["a", "b"]);
    assert!(r.nodes.iter().all(|n| n.status == 4 && n.resp_time == 0));
}

#[test]
fn a_round_of_checks_fills_the_lists() {
    let mut r = router(&["a", "b", "c", "d", "e"]);
    r.recheck(&vec![
        synced(40),
        StatusReply::Unreachable,
        synced(20),
        syncing(1),
        StatusReply::Unreadable,
    ]);
    assert_eq!(urls(&r.alive_nodes), vec!["c", "a"]);
    assert_eq!(urls(&r.dead_nodes), vec!["b", "e"]);
    assert_eq!(urls(&r.alive_but_syncing_nodes), vec!["d"]);
    assert_eq!(r.primary_node.as_ref().unwrap().url, "c");
    assert_eq!(r.alive_nodes[0].status, ONLINE);
    assert_eq!(r.alive_nodes[0].resp_time, 20);
    assert_eq!(r.alive_but_syncing_nodes[0].status, SYNCING);
    assert_eq!(r.dead_nodes[0].status, OFFLINE);
    assert_eq!(r.dead_nodes[1].status, 4);
    assert_eq!(r.nodes[0].status, 4);
}

#[test]
fn every_round_starts_from_the_named_nodes() {
    let mut r = router(&["a", "b"]);
    r.recheck(&vec![synced(1), synced(2)]);
    r.recheck(&vec![StatusReply::Unreachable, syncing(5)]);
    assert!(r.alive_nodes.is_empty());
    assert_eq!(urls(&r.dead_nodes), vec!["a"]);
    assert_eq!(r.primary_node.as_ref().unwrap().url, "b");
    assert!(matches!(r.get_execution_node(Attempt::First), Choice::Recheck));
    r.recheck(&vec![StatusReply::Unreachable, StatusReply::Unreachable]);
    assert!(r.primary_node.is_none());
    assert!(matches!(r.get_execution_node(Attempt::AfterRecheck), Choice::Nobody));
}

#[test]
fn the_chosen_node_is_kept() {
    let mut r = router(&["a", "b"]);
    r.recheck(&vec![synced(9), synced(2)]);
    assert_eq!(chosen(&mut r).url, "b");
    assert_eq!(chosen(&mut r).url, "b");
    r.primary_node = None;
    assert_eq!(chosen(&mut r).url, "b");
    assert_eq!(r.primary_node.as_ref().unwrap().url, "b");
}

#[test]
fn an_offline_primary_gives_way_to_the_next_node() {
    let mut r = router(&["a", "b", "c"]);
    r.recheck(&vec![synced(1), synced(2), synced(3)]);
    r.primary_node.as_mut().unwrap().set_offline();
    assert_eq!(chosen(&mut r).url, "b");
    assert_eq!(r.primary_node.as_ref().unwrap().url, "b");
    let mut last = r.alive_nodes[2].clone();
    last.set_offline();
    r.primary_node = Some(last);
    assert_eq!(chosen(&mut r).url, "a");
}

#[test]
fn methods_have_their_routes() {
    assert_eq!(engine_route(&request("engine_getPayloadV1")), EngineRoute::Primary);
    assert_eq!(engine_route(&request("engine_getPayloadV2")), EngineRoute::Blocks);
    for m in [
        "engine_forkchoiceUpdatedV1",
        "engine_newPayloadV1",
        "engine_forkchoiceUpdatedV2",
        "engine_newPayloadV2",
    ] {
        assert_eq!(engine_route(&request(m)), EngineRoute::Votes);
    }
    assert_eq!(engine_route(&request("engine_getPayloadV3")), EngineRoute::Spread);
    assert_eq!(engine_route(&Json::null()), EngineRoute::Spread);
}

fn targets(requests: &Vec<NodeRequest>, timeout_ms: Option<u64>) -> Vec<&str> {
    for request in requests {
        assert_eq!(request.body, "data");
        assert_eq!(request.authorization, "Bearer t");
        assert_eq!(request.timeout_ms, timeout_ms);
    }
    requests.iter().map(|r| r.url.as_str()).collect()
}

fn engine(r: &mut NodeRouter, method: &str) -> EngineAction {
    r.do_engine_route("data", &request(method), "Bearer t", Attempt::First)
}

#[test]
fn engine_requests_become_actions() {
    let mut r = router(&["a", "b"]);
    for method in ["engine_getPayloadV1", "engine_exchangeCapabilities"] {
        assert!(matches!(engine(&mut r, method), EngineAction::Recheck));
        match r.do_engine_route("data", &request(method), "Bearer t", Attempt::AfterRecheck) {
            EngineAction::Unavailable { body, status } => {
                assert_eq!((body.as_str(), status), ("No nodes available", 500));
            }
            other => panic!("{:?}", other),
        }
    }
    match engine(&mut r, "engine_newPayloadV1") {
        EngineAction::GatherVotes { requests } => assert!(requests.is_empty()),
        other => panic!("{:?}", other),
    }
    r.recheck(&vec![synced(9), synced(2)]);
    match engine(&mut r, "engine_getPayloadV1") {
        EngineAction::Forward { request, spread } => {
            assert_eq!(targets(&vec![request], None), vec!["b"]);
            assert!(!spread);
        }
        other => panic!("{:?}", other),
    }
    match engine(&mut r, "engine_exchangeTransitionConfigurationV1") {
        EngineAction::Forward { request, spread } => {
            assert_eq!(targets(&vec![request], None), vec!["b"]);
            assert!(spread);
        }
        other => panic!("{:?}", other),
    }
    match engine(&mut r, "engine_getPayloadV2") {
        EngineAction::GatherBlocks { requests } => {
            assert_eq!(targets(&requests, None), vec!["b", "a"]);
        }
        other => panic!("{:?}", other),
    }
    match engine(&mut r, "engine_forkchoiceUpdatedV2") {
        EngineAction::GatherVotes { requests } => {
            assert_eq!(targets(&requests, Some(2500)), vec!["b", "a"]);
        }
        other => panic!("{:?}", other),
    }
}

#[test]
fn normal_requests_become_actions() {
    let mut r = router(&["a"]);
    assert!(matches!(
        r.do_route_normal("data", "Bearer t", Attempt::First),
        NormalAction::Recheck
    ));
    match r.do_route_normal("data", "Bearer t", Attempt::AfterRecheck) {
        NormalAction::Unavailable { body, status } => {
            assert_eq!(body, "No nodes available for normal request");
            assert_eq!(status, 500);
        }
        other => panic!("{:?}", other),
    }
    r.recheck(&vec![syncing(1)]);
    match r.do_route_normal("data", "Bearer t", Attempt::AfterRecheck) {
        NormalAction::Forward { request } => {
            assert_eq!(targets(&vec![request], None), vec!["a"]);
        }
        other => panic!("{:?}", other),
    }
    r.recheck(&vec![synced(1)]);
    match r.do_route_normal("data", "Bearer t", Attempt::First) {
        NormalAction::Forward { request } => {
            assert_eq!(targets(&vec![request], None), vec!["a"]);
        }
        other => panic!("{:?}", other),
    }
}

#[test]
fn a_request_is_spread_and_shared_to_the_rest() {
    let mut r = router(&["a", "b", "c", "d", "b"]);
    r.recheck(&vec![synced(1), synced(2), syncing(3), synced(4), synced(5)]);
    assert_eq!(targets(&r.spread_requests("b", "data", "Bearer t"), None), vec!["a", "d"]);
    assert_eq!(
        targets(&r.spread_requests("x", "data", "Bearer t"), None),
        vec!["a", "b", "d", "b"]
    );
    assert_eq!(targets(&r.share_requests("data", "Bearer t"), None), vec!["c"]);
}

#[test]
fn every_node_is_asked_for_its_status() {
    let r = router(&["a", "b"]);
    let requests = r.status_requests();
    assert_eq!(requests.len(), 2);
    for (request, url) in requests.iter().zip(["a", "b"]) {
        assert_eq!(request.url, url);
        assert_eq!(
            request.body,
            "{\"id\":1,\"jsonrpc\":\"2.0\",\"method\":\"eth_syncing\",\"params\":[]}"
        );
        assert!(request.authorization.starts_with("Bearer eyJ"));
        assert_eq!(request.timeout_ms, None);
    }
}

#[test]
fn a_router_is_ready_unless_its_offline_primary_is_lost() {
    let mut r = router(&["a", "b"]);
    assert!(r.is_ready());
    r.recheck(&vec![synced(1), StatusReply::Unreachable]);
    assert!(r.is_ready());
    r.primary_node.as_mut().unwrap().set_offline();
    assert!(r.is_ready());
    r.primary_node = Some(r.dead_nodes[0].clone());
    assert!(!r.is_ready());
}

#[test]
fn requests_are_told_apart_by_their_method() {
    match route_all("{\"method\":") {
        Route::Refused { body, status } => {
            assert_eq!(body, "Couldn't deserialize request body");
            assert_eq!(status, 400);
        }
        other => panic!("{:?}", other),
    }
    assert!(matches!(route_all("{\"method\":5}"), Route::NoMethod));
    assert!(matches!(route_all("[]"), Route::NoMethod));
    assert!(matches!(route_all("{\"method\":\"eth_blockNumber\"}"), Route::Normal));
    assert!(matches!(route_all("{\"method\":\"engine\"}"), Route::Normal));
    match route_all("{\"method\":\"engine_x\",\"id\":31}") {
        Route::Engine { j } => assert_eq!(request_id(&j), Some(31)),
        other => panic!("{:?}", other),
    }
}

#[test]
fn the_number_of_a_request_is_a_natural_number() {
    let id = |text: &str| request_id(&Json::parse(text).unwrap());
    assert_eq!(id("{\"id\":18446744073709551615}"), Some(u64::MAX));
    assert_eq!(id("{\"id\":-1}"), None);
    assert_eq!(id("{\"id\":1.0}"), None);
    assert_eq!(id("{\"id\":\"1\"}"), None);
    assert_eq!(id("{}"), None);
}

#[test]
fn a_clients_own_authorization_is_kept() {
    let key = JwtKey { secret: vec![9] };
    assert_eq!(authorization(Some("Bearer x".to_string()), &key), "Bearer x");
    let made = authorization(None, &key);
    assert!(made.starts_with("Bearer eyJ"));
    assert_eq!(made.matches('.').count(), 2);
}

#[test]
fn failures_are_told_to_the_client() {
    assert_eq!(forwarded(Ok(("ok".to_string(), 418))), ("ok".to_string(), 418));
    assert_eq!(forwarded(Err("timed out".to_string())), ("timed out".to_string(), 500));
}

#[test]
fn failed_nodes_give_no_body() {
    let outcomes = vec![
        Ok(("a".to_string(), 200)),
        Err("x".to_string()),
        Ok(("b".to_string(), 500)),
        Ok(("a".to_string(), 200)),
    ];
    assert_eq!(bodies(&outcomes), vec!["a", "b", "a"]);
}

#[test]
fn the_first_alive_node_stands_in_unless_it_is_offline() {
    let mut r = router(&["a", "b"]);
    r.recheck(&vec![synced(1), synced(2)]);
    r.alive_nodes[0].set_offline();
    r.primary_node = None;
    assert_eq!(chosen(&mut r).url, "b");
    assert_eq!(r.primary_node.as_ref().unwrap().url, "b");
    r.alive_nodes.pop();
    r.primary_node = None;
    assert_eq!(chosen(&mut r).url, "a");
}

#[test]
fn votes_and_blocks_need_no_primary_node() {
    let mut r = router(&["a", "b"]);
    r.recheck(&vec![synced(1), StatusReply::Unreachable]);
    r.primary_node = Some(r.dead_nodes[0].clone());
    assert!(!r.is_ready());
    match engine(&mut r, "engine_newPayloadV2") {
        EngineAction::GatherVotes { requests } => {
            assert_eq!(targets(&requests, Some(2500)), vec!["a"]);
        }
        other => panic!("{:?}", other),
    }
    match engine(&mut r, "engine_getPayloadV2") {
        EngineAction::GatherBlocks { requests } => {
            assert_eq!(targets(&requests, None), vec!["a"]);
        }
        other => panic!("{:?}", other),
    }
    assert_eq!(r.primary_node.as_ref().unwrap().url, "b");
}

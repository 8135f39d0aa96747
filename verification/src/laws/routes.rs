//! Where requests go.

use vstd::prelude::*;

use crate::auth::{carries_issued, JwtKey};
use crate::json::{parsed_text, Json, JsonView};
use crate::laws::checks::{asks_whether_syncing, lemma_asks};
use crate::laws::{holds, lacks};
use crate::node::{asks_status, question, questions, said_by, Node, NodeRequest};
use crate::request::{authorization, for_engine, request_id, route_all, Route};
use crate::router::{
    engine_route, others, Attempt, Choice, EngineAction, EngineRoute, NodeRouter, NormalAction,
};
use crate::text::{begins_with, has_prefix};

verus! {

/// Whether a method belongs to the engine API: it is `engine_` with anything behind it.
pub open spec fn is_engine_method(method: Seq<char>) -> bool {
    exists|rest: Seq<char>| method == #[trigger] ("engine_"@ + rest)
}

/// A text begins with another if it is that one with something behind it.
pub proof fn law_prefix_is_in_front(text: &str, prefix: &str, r: bool)
    requires
        call_ensures(has_prefix, (text, prefix), r),
    ensures
        r <==> exists|rest: Seq<char>| text@ == #[trigger] (prefix@ + rest),
{
    lemma_begins_with(text@, prefix@);
}

/// A text begins with what stands before the rest of it.
pub(crate) proof fn lemma_begins_with(text: Seq<char>, prefix: Seq<char>)
    ensures
        begins_with(text, prefix) <==> exists|rest: Seq<char>| text == #[trigger] (prefix + rest),
{
    if begins_with(text, prefix) {
        let rest = text.skip(prefix.len() as int);
        assert(text =~= prefix + rest);
    }
    if exists|rest: Seq<char>| text == #[trigger] (prefix + rest) {
        assert(text.take(prefix.len() as int) =~= prefix);
    }
}

/// A request whose method is `engine_` with anything behind it is for the engine API, one with
/// another method is not, and of one whose method is no string it cannot be said.
pub proof fn law_engine_methods_are_known(j: &Json, r: Option<bool>)
    requires
        call_ensures(for_engine, (j,), r),
    ensures
        forall|method: Seq<char>| #[trigger]
            holds(j@, "method"@, JsonView::Str(method)) ==> r == Some(is_engine_method(method)),
        forall|method: JsonView| #[trigger]
            holds(j@, "method"@, method) && !(method is Str) ==> r is None,
        lacks(j@, "method"@) ==> r is None,
{
    assert forall|method: Seq<char>| #[trigger]
        holds(j@, "method"@, JsonView::Str(method)) implies r == Some(is_engine_method(method)) by {
        lemma_begins_with(method, "engine_"@);
    }
}

/// A request is routed by its method: to the engine API if it is `engine_` with anything behind it,
/// and to the others if it is another string. Without a string for a method there is no route, and
/// what is not JSON is refused as a bad request.
pub proof fn law_requests_are_routed_by_method(body: &str, r: Route)
    requires
        call_ensures(route_all, (body,), r),
    ensures
        parsed_text(body@) is None ==> (r matches Route::Refused { body: complaint, status }
            && complaint@ == "Couldn't deserialize request body"@ && status == 400),
        parsed_text(body@) matches Some(request) ==> {
            &&& forall|rest: Seq<char>| #[trigger]
                holds(request, "method"@, JsonView::Str("engine_"@ + rest)) ==> (
                r matches Route::Engine { j } && j@ == request)
            &&& forall|method: Seq<char>| #[trigger]
                holds(request, "method"@, JsonView::Str(method)) && !is_engine_method(method)
                    ==> r is Normal
            &&& forall|method: JsonView| #[trigger]
                holds(request, "method"@, method) && !(method is Str) ==> r is NoMethod
            &&& lacks(request, "method"@) ==> r is NoMethod
        },
{
    if let Some(request) = parsed_text(body@) {
        assert forall|rest: Seq<char>| #[trigger]
            holds(request, "method"@, JsonView::Str("engine_"@ + rest)) implies (
        r matches Route::Engine { j } && j@ == request) by {
            lemma_begins_with("engine_"@ + rest, "engine_"@);
        }
        assert forall|method: Seq<char>| #[trigger]
            holds(request, "method"@, JsonView::Str(method)) && !is_engine_method(
                method,
            ) implies r is Normal by {
            lemma_begins_with(method, "engine_"@);
        }
    }
}

/// Whether a method is voted on.
pub open spec fn is_voted_on(method: Seq<char>) -> bool {
    ||| method == "engine_newPayloadV1"@
    ||| method == "engine_newPayloadV2"@
    ||| method == "engine_forkchoiceUpdatedV1"@
    ||| method == "engine_forkchoiceUpdatedV2"@
}

/// A request to the engine API is routed by its method alone: new payloads and fork choice updates
/// are voted on, a payload with a block value is asked of all nodes, one without of the primary node
/// alone, and anything else is spread.
pub proof fn law_engine_requests_are_routed_by_method(j: &Json, r: EngineRoute)
    requires
        call_ensures(engine_route, (j,), r),
    ensures
        forall|method: Seq<char>| #[trigger]
            holds(j@, "method"@, JsonView::Str(method)) ==> {
                &&& r == EngineRoute::Votes <==> is_voted_on(method)
                &&& r == EngineRoute::Blocks <==> method == "engine_getPayloadV2"@
                &&& r == EngineRoute::Primary <==> method == "engine_getPayloadV1"@
            },
        forall|method: JsonView| #[trigger]
            holds(j@, "method"@, method) && !(method is Str) ==> r == EngineRoute::Spread,
        lacks(j@, "method"@) ==> r == EngineRoute::Spread,
{
    lemma_methods_differ();
}

/// The methods that have a rule of their own differ.
proof fn lemma_methods_differ()
    ensures
        "engine_getPayloadV1"@ != "engine_getPayloadV2"@,
        !is_voted_on("engine_getPayloadV1"@),
        !is_voted_on("engine_getPayloadV2"@),
{
    reveal_strlit("engine_getPayloadV1");
    reveal_strlit("engine_getPayloadV2");
    reveal_strlit("engine_newPayloadV1");
    reveal_strlit("engine_newPayloadV2");
    reveal_strlit("engine_forkchoiceUpdatedV1");
    reveal_strlit("engine_forkchoiceUpdatedV2");
    assert("engine_getPayloadV1"@[18] != "engine_getPayloadV2"@[18]);
    assert("engine_getPayloadV1"@[7] == 'g' && "engine_getPayloadV2"@[7] == 'g');
    assert("engine_newPayloadV1"@[7] == 'n' && "engine_newPayloadV2"@[7] == 'n');
    assert("engine_forkchoiceUpdatedV1"@[7] == 'f' && "engine_forkchoiceUpdatedV2"@[7] == 'f');
}

/// What the engine API has a rule for is routed to the engine API.
pub proof fn law_ruled_methods_are_for_the_engine(body: &str, r: Route, j: &Json, route: EngineRoute)
    requires
        call_ensures(route_all, (body,), r),
        parsed_text(body@) == Some(j@),
        call_ensures(engine_route, (j,), route),
        route != EngineRoute::Spread,
    ensures
        r is Engine,
{
    reveal_strlit("engine_");
    reveal_strlit("engine_getPayloadV1");
    reveal_strlit("engine_getPayloadV2");
    reveal_strlit("engine_newPayloadV1");
    reveal_strlit("engine_newPayloadV2");
    reveal_strlit("engine_forkchoiceUpdatedV1");
    reveal_strlit("engine_forkchoiceUpdatedV2");
    law_engine_requests_are_routed_by_method(j, route);
    let method = j@.member("method"@).text()->0;
    assert(holds(j@, "method"@, JsonView::Str(method)));
    let rest = method.skip(7);
    assert(method =~= "engine_"@ + rest);
    law_requests_are_routed_by_method(body, r);
    assert(holds(j@, "method"@, JsonView::Str("engine_"@ + rest)));
}

/// The number of a request is the integer under `id`, if a `u64` holds it.
pub proof fn law_number_is_the_id(j: &Json, r: Option<u64>)
    requires
        call_ensures(request_id, (j,), r),
    ensures
        forall|n: int| #[trigger]
            holds(j@, "id"@, JsonView::Integer(n)) ==> if 0 <= n <= u64::MAX {
                r == Some(n as u64)
            } else {
                r is None
            },
        forall|id: JsonView| #[trigger] holds(j@, "id"@, id) && !(id is Integer) ==> r is None,
        lacks(j@, "id"@) ==> r is None,
{
}

/// A client's own token is kept, and a client without one gets one that is dated by the clock.
pub proof fn law_own_token_is_kept(header: Option<String>, jwt_key: &JwtKey, r: String)
    requires
        call_ensures(authorization, (header, jwt_key), r),
    ensures
        header matches Some(given) ==> r@ == given@,
        header is None ==> carries_issued(r@, jwt_key.secret@),
{
}

/// Whether a request takes `data` to a node under a token.
pub open spec fn carries(
    request: NodeRequest,
    node: Node,
    data: Seq<char>,
    jwt_token: Seq<char>,
    timeout_ms: Option<u64>,
) -> bool {
    &&& request.url@ == node.url@
    &&& request.body@ == data
    &&& request.authorization@ == jwt_token
    &&& request.timeout_ms == timeout_ms
}

/// Whether requests take `data` to nodes under a token, one to each, in their order.
pub open spec fn carry(
    requests: Seq<NodeRequest>,
    nodes: Seq<Node>,
    data: Seq<char>,
    jwt_token: Seq<char>,
    timeout_ms: Option<u64>,
) -> bool {
    &&& requests.len() == nodes.len()
    &&& forall|i: int|
        0 <= i < nodes.len() ==> carries(#[trigger] requests[i], nodes[i], data, jwt_token, timeout_ms)
}

/// Requests carry what they say.
proof fn lemma_carry(
    requests: Seq<NodeRequest>,
    nodes: Seq<Node>,
    data: Seq<char>,
    jwt_token: Seq<char>,
    timeout_ms: Option<u64>,
)
    requires
        said_by(requests) == questions(nodes, data, jwt_token, timeout_ms),
    ensures
        carry(requests, nodes, data, jwt_token, timeout_ms),
{
    assert(said_by(requests).len() == requests.len());
    assert(questions(nodes, data, jwt_token, timeout_ms).len() == nodes.len());
    assert forall|i: int| 0 <= i < nodes.len() implies carries(
        #[trigger] requests[i],
        nodes[i],
        data,
        jwt_token,
        timeout_ms,
    ) by {
        assert(said_by(requests)[i] == requests[i]@);
        assert(questions(nodes, data, jwt_token, timeout_ms)[i] == question(
            nodes[i],
            data,
            jwt_token,
            timeout_ms,
        ));
    }
}

/// A request to a node carries what it is given to the node's address, within two and a half seconds
/// or with all the time that it takes.
pub proof fn law_request_carries_what_it_is_given(
    node: &Node,
    data: &str,
    jwt_token: &str,
    timed: NodeRequest,
    untimed: NodeRequest,
)
    requires
        call_ensures(Node::do_request, (node, data, jwt_token), timed),
        call_ensures(Node::do_request_no_timeout, (node, data, jwt_token), untimed),
    ensures
        carries(timed, *node, data@, jwt_token@, Some(2500)),
        carries(untimed, *node, data@, jwt_token@, None),
{
}

/// Whether `node` is the one that requests go to: the primary node unless it is offline, and without
/// one the first alive node. An offline one gives way to the alive node behind it, and the last to
/// the first. Without alive nodes, a node that is syncing takes the place of an offline primary node
/// or of none. There is no node where no list has any.
pub open spec fn serves(router: NodeRouter, node: Option<Node>) -> bool {
    let alive = router.alive_nodes@;
    let syncing = router.alive_but_syncing_nodes@;
    &&& forall|primary: Node|
        router.primary_node == Some(primary) && primary.status != 0 ==> node == Some(primary)
    &&& router.primary_node is None && alive.len() > 0 && alive[0].status != 0 ==> node == Some(
        alive[0],
    )
    &&& forall|first: Node, k: int|
        #![trigger is_first(alive, first, k)]
        (router.primary_node == Some(first) || (router.primary_node is None && alive.len() > 0 && first
            == alive[0])) && first.status == 0 && is_first(alive, first, k) ==> node == Some(
            if k + 1 < alive.len() {
                alive[k + 1]
            } else {
                alive[0]
            },
        )
    &&& alive.len() == 0 && (router.primary_node matches Some(primary) ==> primary.status == 0) ==> (if syncing.len()
        > 0 {
        node == Some(syncing[0])
    } else {
        node is None
    })
}

/// Whether a position is the first at which nodes have the address of a node.
pub open spec fn is_first(nodes: Seq<Node>, node: Node, k: int) -> bool {
    &&& 0 <= k < nodes.len()
    &&& nodes[k].url@ == node.url@
    &&& forall|i: int| 0 <= i < k ==> (#[trigger] nodes[i]).url@ != node.url@
}

/// The node that requests go to serves.
proof fn lemma_serves(router: NodeRouter)
    requires
        router.can_move_on(),
    ensures
        serves(router, router.execution_node()),
{
    let alive = router.alive_nodes@;
    assert forall|first: Node, k: int|
        #![trigger is_first(alive, first, k)]
        (router.primary_node == Some(first) || (router.primary_node is None && alive.len() > 0 && first
            == alive[0])) && first.status == 0 && is_first(
            alive,
            first,
            k,
        ) implies router.execution_node() == Some(
        if k + 1 < alive.len() {
            alive[k + 1]
        } else {
            alive[0]
        },
    ) by {
        crate::router::lemma_position(alive, first.url@, k);
    }
}

/// A new router has its nodes and its key, and knows nothing of the nodes.
pub proof fn law_new_router_knows_nothing(jwt_key: &JwtKey, nodes: Vec<Node>, r: NodeRouter)
    requires
        call_ensures(NodeRouter::new, (jwt_key, nodes), r),
    ensures
        r.nodes == nodes,
        r.jwt_key.secret@ == jwt_key.secret@,
        r.alive_nodes@.len() == 0,
        r.alive_but_syncing_nodes@.len() == 0,
        r.dead_nodes@.len() == 0,
        r.primary_node is None,
{
}

/// A node can be chosen unless there are alive nodes and the primary node is offline and has the
/// address of none of them.
pub proof fn law_ready_unless_the_primary_is_lost(router: &NodeRouter, r: bool)
    requires
        call_ensures(NodeRouter::is_ready, (router,), r),
    ensures
        !r <==> router.alive_nodes@.len() > 0 && (router.primary_node matches Some(primary)
            && primary.status == 0 && forall|i: int|
            0 <= i < router.alive_nodes@.len() ==> (#[trigger] router.alive_nodes@[i]).url@
                != primary.url@),
{
}

/// The choice by the lists is the node that serves, which becomes the primary node. Nothing else
/// changes.
pub proof fn law_choice_serves(router: &mut NodeRouter, r: Option<Node>)
    requires
        call_ensures(NodeRouter::choose_node, (router,), r),
        old(router).can_move_on(),
    ensures
        serves(*old(router), r),
        *final(router) == (NodeRouter { primary_node: r, ..*old(router) }),
{
    lemma_serves(*old(router));
}

/// Where no node is alive, the nodes are checked anew first. After that, or where one is alive, the
/// node that serves is chosen, and there is none only if none serves.
pub proof fn law_execution_node_serves(router: &mut NodeRouter, attempt: Attempt, r: Choice)
    requires
        call_ensures(NodeRouter::get_execution_node, (router, attempt), r),
        old(router).can_move_on(),
    ensures
        r is Recheck <==> attempt == Attempt::First && old(router).alive_nodes@.len() == 0,
        r is Recheck ==> *final(router) == *old(router),
        r matches Choice::Chosen { node } ==> serves(*old(router), Some(node)) && *final(router) == (
        NodeRouter { primary_node: Some(node), ..*old(router) }),
        r is Nobody ==> serves(*old(router), None) && *final(router) == (NodeRouter {
            primary_node: None,
            ..*old(router)
        }),
        r is Nobody ==> old(router).alive_nodes@.len() == 0 && old(
            router).alive_but_syncing_nodes@.len() == 0,
{
    lemma_serves(*old(router));
}

/// New payloads and fork choice updates go to every alive node, each with two and a half seconds to
/// answer, and the node that serves is not looked at.
pub proof fn law_votes_are_asked_of_all(
    router: &mut NodeRouter,
    data: &str,
    j: &Json,
    jwt_token: &str,
    attempt: Attempt,
    r: EngineAction,
    method: Seq<char>,
)
    requires
        call_ensures(NodeRouter::do_engine_route, (router, data, j, jwt_token, attempt), r),
        holds(j@, "method"@, JsonView::Str(method)),
        is_voted_on(method),
    ensures
        r matches EngineAction::GatherVotes { requests } && carry(
            requests@,
            old(router).alive_nodes@,
            data@,
            jwt_token@,
            Some(2500),
        ),
        *final(router) == *old(router),
{
    lemma_methods_differ();
    if let EngineAction::GatherVotes { requests } = r {
        lemma_carry(requests@, old(router).alive_nodes@, data@, jwt_token@, Some(2500));
    }
}

/// A payload with a block value is asked of every alive node, with all the time that it takes.
pub proof fn law_blocks_are_asked_of_all(
    router: &mut NodeRouter,
    data: &str,
    j: &Json,
    jwt_token: &str,
    attempt: Attempt,
    r: EngineAction,
)
    requires
        call_ensures(NodeRouter::do_engine_route, (router, data, j, jwt_token, attempt), r),
        holds(j@, "method"@, JsonView::Str("engine_getPayloadV2"@)),
    ensures
        r matches EngineAction::GatherBlocks { requests } && carry(
            requests@,
            old(router).alive_nodes@,
            data@,
            jwt_token@,
            None,
        ),
        *final(router) == *old(router),
{
    lemma_methods_differ();
    if let EngineAction::GatherBlocks { requests } = r {
        lemma_carry(requests@, old(router).alive_nodes@, data@, jwt_token@, None);
    }
}

/// Any other request to the engine API goes to the node that serves. Without alive nodes these are
/// checked anew first, and then it is said that none is available only if none serves. It is spread to
/// the others unless it asks for a payload without a block value.
pub proof fn law_other_engine_requests_go_to_the_serving_node(
    router: &mut NodeRouter,
    data: &str,
    j: &Json,
    jwt_token: &str,
    attempt: Attempt,
    r: EngineAction,
    method: Seq<char>,
)
    requires
        call_ensures(NodeRouter::do_engine_route, (router, data, j, jwt_token, attempt), r),
        holds(j@, "method"@, JsonView::Str(method)),
        !is_voted_on(method),
        method != "engine_getPayloadV2"@,
        old(router).can_move_on(),
    ensures
        r is Recheck <==> attempt == Attempt::First && old(router).alive_nodes@.len() == 0,
        r is Recheck ==> *final(router) == *old(router),
        !(r is Recheck) ==> serves(*old(router), final(router).primary_node) && *final(router) == (
        NodeRouter { primary_node: final(router).primary_node, ..*old(router) }),
        !(r is Recheck) ==> match final(router).primary_node {
            Some(node) => r matches EngineAction::Forward { request, spread } && carries(
                request,
                node,
                data@,
                jwt_token@,
                None,
            ) && spread == (method != "engine_getPayloadV1"@),
            None => r matches EngineAction::Unavailable { body, status } && body@
                == "No nodes available"@ && status == 500,
        },
{
    lemma_methods_differ();
    lemma_serves(*old(router));
}

/// A request that is not for the engine API goes to the node that serves alone. Without alive nodes
/// these are checked anew first, and then it is said that none is available only if none serves.
pub proof fn law_normal_requests_go_to_the_serving_node(
    router: &mut NodeRouter,
    data: &str,
    jwt_token: &str,
    attempt: Attempt,
    r: NormalAction,
)
    requires
        call_ensures(NodeRouter::do_route_normal, (router, data, jwt_token, attempt), r),
        old(router).can_move_on(),
    ensures
        r is Recheck <==> attempt == Attempt::First && old(router).alive_nodes@.len() == 0,
        r is Recheck ==> *final(router) == *old(router),
        !(r is Recheck) ==> serves(*old(router), final(router).primary_node) && *final(router) == (
        NodeRouter { primary_node: final(router).primary_node, ..*old(router) }),
        !(r is Recheck) ==> match final(router).primary_node {
            Some(node) => r matches NormalAction::Forward { request } && carries(
                request,
                node,
                data@,
                jwt_token@,
                None,
            ),
            None => r matches NormalAction::Unavailable { body, status } && body@
                == "No nodes available for normal request"@ && status == 500,
        },
{
    lemma_serves(*old(router));
}

/// The nodes with another address than some are those of the first ones, then those of the others, and
/// one node is among them if its address is another.
pub proof fn law_others_join(first: Seq<Node>, second: Seq<Node>, url: Seq<char>, node: Node)
    ensures
        others(first + second, url) == others(first, url) + others(second, url),
        others(seq![node], url) == if node.url@ == url {
            Seq::empty()
        } else {
            seq![node]
        },
    decreases second.len(),
{
    reveal_with_fuel(others, 2);
    assert(seq![node].drop_last() =~= Seq::empty());
    assert(others(seq![node], url) =~= if node.url@ == url {
        Seq::empty()
    } else {
        seq![node]
    });
    if second.len() == 0 {
        assert(first + second =~= first);
        assert(others(first, url) + others(second, url) =~= others(first, url));
    } else {
        law_others_join(first, second.drop_last(), url, node);
        assert((first + second).drop_last() =~= first + second.drop_last());
        assert(others(first + second, url) =~= others(first, url) + others(second, url));
    }
}

/// A request that is spread goes to the alive nodes with another address, in their order, and one that
/// is shared to all that are syncing, each with all the time that it takes. A round of status checks
/// asks every node, in its order.
pub proof fn law_requests_reach_their_lists(
    router: &NodeRouter,
    url: &str,
    data: &str,
    jwt_token: &str,
    spread: Vec<NodeRequest>,
    shared: Vec<NodeRequest>,
    round: Vec<NodeRequest>,
)
    requires
        call_ensures(NodeRouter::spread_requests, (router, url, data, jwt_token), spread),
        call_ensures(NodeRouter::share_requests, (router, data, jwt_token), shared),
        call_ensures(NodeRouter::status_requests, (router,), round),
    ensures
        carry(spread@, others(router.alive_nodes@, url@), data@, jwt_token@, None),
        carry(shared@, router.alive_but_syncing_nodes@, data@, jwt_token@, None),
        round@.len() == router.nodes@.len(),
        forall|i: int|
            0 <= i < round@.len() ==> (#[trigger] round@[i]).url@ == router.nodes@[i].url@
                && carries_issued(round@[i].authorization@, router.jwt_key.secret@)
                && asks_whether_syncing(round@[i].body@) && round@[i].timeout_ms is None,
{
    lemma_carry(spread@, others(router.alive_nodes@, url@), data@, jwt_token@, None);
    lemma_carry(shared@, router.alive_but_syncing_nodes@, data@, jwt_token@, None);
    assert forall|i: int| 0 <= i < round@.len() implies (#[trigger] round@[i]).url@
        == router.nodes@[i].url@ && carries_issued(
        round@[i].authorization@,
        router.jwt_key.secret@,
    ) && asks_whether_syncing(round@[i].body@) && round@[i].timeout_ms is None by {
        assert(asks_status(round@[i]@, router.nodes@[i], router.jwt_key.secret@));
        lemma_asks(round@[i].body@);
    }
}

} // verus!

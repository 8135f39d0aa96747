//! Which nodes a request goes to.

use vstd::prelude::*;

use crate::auth::JwtKey;
use crate::json::{is_text, member, Json, JsonView};
use crate::node::{
    asks_status, checked, question, questions, said_by, Node, NodeRequest, StatusReply, OFFLINE, ONLINE,
    REQUEST_TIMEOUT_MS, SYNCING,
};
use crate::reply::FAILURE;
use crate::rounds::law_round_sets_statuses;
use crate::standing::{
    fastest_first, listed, prefer, preferred, sort_out, CheckResult, Standing,
};
use crate::text::same_text;

verus! {

/// The nodes and what is known of them.
#[derive(Debug)]
pub struct NodeRouter {
    /// All nodes, as they were named at the start.
    pub nodes: Vec<Node>,
    /// The nodes in sync at the last round of status checks, the fastest first.
    pub alive_nodes: Vec<Node>,
    /// The nodes of no use at the last round of status checks.
    pub dead_nodes: Vec<Node>,
    /// The nodes that were syncing at the last round of status checks.
    pub alive_but_syncing_nodes: Vec<Node>,
    /// The node that requests go to.
    pub primary_node: Option<Node>,
    /// The key for the tokens that open the nodes' authenticated ports.
    pub jwt_key: JwtKey,
}

/// How a request to the engine API is routed.
#[derive(Debug, Clone, Copy, PartialEq, Eq, Structural)]
pub enum EngineRoute {
    /// To the primary node alone.
    Primary,
    /// To all alive nodes, for the best of their blocks.
    Blocks,
    /// To all alive nodes, for what they agree on.
    Votes,
    /// To the primary node, and to the other alive nodes once it answered.
    Spread,
}

/// Whether the nodes were checked anew on account of a request.
#[derive(Debug, Clone, Copy, PartialEq, Eq, Structural)]
pub enum Attempt {
    /// They were not.
    First,
    /// They were, since no node was alive.
    AfterRecheck,
}

/// The node that a request goes to.
#[derive(Debug)]
pub enum Choice {
    /// No node is alive: check the nodes anew, and try again.
    Recheck,
    /// This node.
    Chosen { node: Node },
    /// There is none.
    Nobody,
}

/// What to do about a request to the engine API.
#[derive(Debug)]
pub enum EngineAction {
    /// Check the nodes anew, and try again.
    Recheck,
    /// Answer this.
    Unavailable { body: String, status: u16 },
    /// Send `request` and answer what comes back: see [`forwarded`](crate::reply::forwarded). With
    /// `spread`, take the client's request to the other alive nodes afterwards.
    Forward { request: NodeRequest, spread: bool },
    /// Send the requests one by one, and answer with the best block: see
    /// [`blocks_reply`](crate::block::blocks_reply).
    GatherBlocks { requests: Vec<NodeRequest> },
    /// Send the requests one by one, and answer with what the nodes agree on: see
    /// [`votes_answer`](crate::forkchoice::votes_answer).
    GatherVotes { requests: Vec<NodeRequest> },
}

/// What to do about any other request.
#[derive(Debug)]
pub enum NormalAction {
    /// Check the nodes anew, and try again.
    Recheck,
    /// Answer this.
    Unavailable { body: String, status: u16 },
    /// Send `request` and answer what comes back.
    Forward { request: NodeRequest },
}

/// The nodes after a round of status checks.
pub open spec fn checked_nodes(nodes: Seq<Node>, replies: Seq<StatusReply>) -> Seq<Node> {
    Seq::new(nodes.len(), |i: int| checked(nodes[i], replies[i]).0)
}

/// What a round of status checks found.
pub open spec fn check_results(nodes: Seq<Node>, replies: Seq<StatusReply>) -> Seq<CheckResult> {
    Seq::new(nodes.len(), |i: int| checked(nodes[i], replies[i]).1)
}

/// Whether a round of status checks with these replies takes a router from one state to another:
/// the nodes stay as they were named. The alive ones are listed by the time that their answers took,
/// the others in their order, and the primary node is the one to prefer.
pub open spec fn rechecked(
    before: NodeRouter,
    replies: Seq<StatusReply>,
    after: NodeRouter,
) -> bool {
    let nodes = checked_nodes(before.nodes@, replies);
    let results = check_results(before.nodes@, replies);
    &&& after.nodes == before.nodes
    &&& after.jwt_key == before.jwt_key
    &&& fastest_first(after.alive_nodes@, nodes, results)
    &&& after.dead_nodes@ == listed(nodes, results, Standing::Dead, nodes.len())
    &&& after.alive_but_syncing_nodes@ == listed(nodes, results, Standing::Syncing, nodes.len())
    &&& after.primary_node == preferred(after.alive_nodes@, after.alive_but_syncing_nodes@)
}

/// The position of the first node with an address; the number of nodes where there is none.
pub open spec fn position_of(nodes: Seq<Node>, url: Seq<char>) -> int
    decreases nodes.len(),
{
    if nodes.len() == 0 || nodes[0].url@ == url {
        0
    } else {
        1 + position_of(nodes.skip(1), url)
    }
}

/// The nodes with another address, in their order.
pub open spec fn others(nodes: Seq<Node>, url: Seq<char>) -> Seq<Node>
    decreases nodes.len(),
{
    if nodes.len() == 0 {
        Seq::empty()
    } else {
        let before = others(nodes.drop_last(), url);
        if nodes.last().url@ != url {
            before.push(nodes.last())
        } else {
            before
        }
    }
}

/// Whether a request asks for a method.
pub open spec fn asks_for(request: JsonView, method: Seq<char>) -> bool {
    request.member("method"@).text() == Some(method)
}

/// How a request to the engine API is routed.
pub open spec fn route_of(request: JsonView) -> EngineRoute {
    if asks_for(request, "engine_getPayloadV1"@) {
        EngineRoute::Primary
    } else if asks_for(request, "engine_getPayloadV2"@) {
        EngineRoute::Blocks
    } else if asks_for(request, "engine_forkchoiceUpdatedV1"@) || asks_for(
        request,
        "engine_newPayloadV1"@,
    ) || asks_for(request, "engine_forkchoiceUpdatedV2"@) || asks_for(
        request,
        "engine_newPayloadV2"@,
    ) {
        EngineRoute::Votes
    } else {
        EngineRoute::Spread
    }
}

/// The requests that take `data` to nodes, without a time limit.
fn ask_all(nodes: &Vec<Node>, data: &str, jwt_token: &str) -> (r: Vec<NodeRequest>)
    ensures
        said_by(r@) == questions(nodes@, data@, jwt_token@, None),
{
    let mut requests: Vec<NodeRequest> = Vec::new();
    for i in 0..nodes.len()
        invariant
            requests.len() == i,
            forall|k: int|
                0 <= k < i ==> (#[trigger] requests@[k])@ == question(
                    nodes@[k],
                    data@,
                    jwt_token@,
                    None,
                ),
    {
        requests.push(nodes[i].do_request_no_timeout(data, jwt_token));
    }
    assert(said_by(requests@) =~= questions(nodes@, data@, jwt_token@, None));
    requests
}

/// The requests that take `data` to nodes, each with a time limit.
fn poll_all(nodes: &Vec<Node>, data: &str, jwt_token: &str) -> (r: Vec<NodeRequest>)
    ensures
        said_by(r@) == questions(nodes@, data@, jwt_token@, Some(REQUEST_TIMEOUT_MS)),
{
    let mut requests: Vec<NodeRequest> = Vec::new();
    for i in 0..nodes.len()
        invariant
            requests.len() == i,
            forall|k: int|
                0 <= k < i ==> (#[trigger] requests@[k])@ == question(
                    nodes@[k],
                    data@,
                    jwt_token@,
                    Some(REQUEST_TIMEOUT_MS),
                ),
    {
        requests.push(nodes[i].do_request(data, jwt_token));
    }
    assert(said_by(requests@) =~= questions(nodes@, data@, jwt_token@, Some(REQUEST_TIMEOUT_MS)));
    requests
}

/// The position of the first node with an address.
fn find(nodes: &Vec<Node>, url: &str) -> (r: usize)
    ensures
        r == position_of(nodes@, url@),
        r <= nodes.len(),
        r < nodes.len() <==> exists|i: int| 0 <= i < nodes.len() && (#[trigger] nodes@[i]).url@ == url@,
{
    assert(nodes@.skip(0) =~= nodes@);
    for i in 0..nodes.len()
        invariant
            position_of(nodes@, url@) == i + position_of(nodes@.skip(i as int), url@),
            forall|j: int| 0 <= j < i ==> (#[trigger] nodes@[j]).url@ != url@,
    {
        if same_text(nodes[i].url.as_str(), url) {
            assert(nodes@.skip(i as int)[0] == nodes@[i as int]);
            return i;
        }
        assert(nodes@.skip(i as int).skip(1) =~= nodes@.skip(i + 1));
    }
    nodes.len()
}

/// How a request to the engine API is routed.
pub fn engine_route(j: &Json) -> (r: EngineRoute)
    ensures
        r == route_of(j@),
{
    let method = member(&j.value, "method");
    if is_text(method, "engine_getPayloadV1") {
        EngineRoute::Primary
    } else if is_text(method, "engine_getPayloadV2") {
        EngineRoute::Blocks
    } else if is_text(method, "engine_forkchoiceUpdatedV1") || is_text(method, "engine_newPayloadV1")
        || is_text(method, "engine_forkchoiceUpdatedV2") || is_text(method, "engine_newPayloadV2") {
        EngineRoute::Votes
    } else {
        EngineRoute::Spread
    }
}

impl NodeRouter {
    /// What holds of the lists at all times: each node in them has the status that its list is
    /// for. The primary node is an alive one; without alive nodes, it is the first that is
    /// syncing, and there is none without these.
    pub open spec fn wf(&self) -> bool {
        &&& forall|i: int|
            0 <= i < self.alive_nodes@.len() ==> (#[trigger] self.alive_nodes@[i]).status == ONLINE
        &&& forall|i: int|
            0 <= i < self.alive_but_syncing_nodes@.len() ==> (
            #[trigger] self.alive_but_syncing_nodes@[i]).status == SYNCING
        &&& if self.alive_nodes@.len() > 0 {
            self.primary_node matches Some(primary) && self.alive_nodes@.contains(primary)
        } else {
            self.primary_node == preferred(self.alive_nodes@, self.alive_but_syncing_nodes@)
        }
    }

    /// An offline primary node is one of the alive nodes, so that there is one after it.
    pub open spec fn can_move_on(&self) -> bool {
        self.alive_nodes@.len() > 0 ==> (self.primary_node matches Some(primary) ==> (primary.status
            == OFFLINE ==> exists|i: int|
            0 <= i < self.alive_nodes@.len() && (#[trigger] self.alive_nodes@[i]).url@
                == primary.url@))
    }

    /// The node that requests go to: the primary node, or the node to prefer where there is none.
    /// If it is offline, it is the alive node after it; after the last comes the first. Without
    /// alive nodes, the first that is syncing takes the place of an offline primary node.
    pub open spec fn execution_node(&self) -> Option<Node> {
        let alive = self.alive_nodes@;
        if alive.len() == 0 {
            match self.primary_node {
                Some(primary) if primary.status != OFFLINE => Some(primary),
                _ => preferred(alive, self.alive_but_syncing_nodes@),
            }
        } else {
            let first = match self.primary_node {
                Some(primary) => primary,
                None => alive[0],
            };
            if first.status != OFFLINE {
                Some(first)
            } else {
                let k = position_of(alive, first.url@);
                if k == alive.len() - 1 {
                    Some(alive[0])
                } else {
                    Some(alive[k + 1])
                }
            }
        }
    }

    /// Whether a node can be chosen: an offline primary node must be one of the alive nodes.
    pub fn is_ready(&self) -> (r: bool)
        ensures
            r == self.can_move_on(),
    {
        if self.alive_nodes.len() == 0 {
            return true;
        }
        match &self.primary_node {
            None => true,
            Some(primary) => primary.status != OFFLINE || find(
                &self.alive_nodes,
                primary.url.as_str(),
            ) < self.alive_nodes.len(),
        }
    }

    /// A router that did not check its nodes yet.
    pub fn new(jwt_key: &JwtKey, nodes: Vec<Node>) -> (r: NodeRouter)
        ensures
            r.nodes == nodes,
            r.alive_nodes@.len() == 0,
            r.dead_nodes@.len() == 0,
            r.alive_but_syncing_nodes@.len() == 0,
            r.primary_node is None,
            r.jwt_key.secret@ == jwt_key.secret@,
            r.wf(),
    {
        NodeRouter {
            nodes,
            alive_nodes: Vec::new(),
            dead_nodes: Vec::new(),
            alive_but_syncing_nodes: Vec::new(),
            primary_node: None,
            jwt_key: jwt_key.clone(),
        }
    }

    /// Takes down a round of status checks: `replies` holds what came of the request to each node.
    /// The alive nodes are put in the order of their answers' times, and the fastest becomes the
    /// primary node. Without alive nodes, the first that is syncing does.
    pub fn recheck(&mut self, replies: &Vec<StatusReply>)
        requires
            replies@.len() == old(self).nodes@.len(),
        ensures
            rechecked(*old(self), replies@, *final(self)),
            final(self).wf(),
    {
        let mut nodes: Vec<Node> = Vec::new();
        let mut results: Vec<CheckResult> = Vec::new();
        for i in 0..self.nodes.len()
            invariant
                replies.len() == self.nodes.len(),
                nodes.len() == i,
                results.len() == i,
                forall|k: int|
                    0 <= k < i ==> #[trigger] nodes@[k] == checked(self.nodes@[k], replies@[k]).0,
                forall|k: int|
                    0 <= k < i ==> #[trigger] results@[k] == checked(self.nodes@[k], replies@[k]).1,
        {
            let mut node = self.nodes[i].clone();
            let result = node.check_status(&replies[i]);
            nodes.push(node);
            results.push(result);
        }
        assert(nodes@ =~= checked_nodes(self.nodes@, replies@));
        assert(results@ =~= check_results(self.nodes@, replies@));
        let standings = sort_out(&nodes, &results);
        self.primary_node = standings.primary_node;
        self.alive_nodes = standings.alive_nodes;
        self.dead_nodes = standings.dead_nodes;
        self.alive_but_syncing_nodes = standings.alive_but_syncing_nodes;
        proof {
            law_round_sets_statuses(*old(self), replies@, *self);
        }
    }

    /// The node that requests go to by the lists as they are, which becomes the primary node. There
    /// is none if no node is alive and none is syncing.
    pub fn choose_node(&mut self) -> (r: Option<Node>)
        requires
            old(self).can_move_on(),
        ensures
            r == old(self).execution_node(),
            *final(self) == (NodeRouter { primary_node: r, ..*old(self) }),
            r is None ==> old(self).alive_nodes@.len() == 0 && old(
                self,
            ).alive_but_syncing_nodes@.len() == 0,
            old(self).alive_nodes@.len() == 0 ==> (old(self).primary_node matches Some(primary) ==> (
            primary.status != OFFLINE ==> r == Some(primary))),
            old(self).wf() ==> final(self).wf() && r == old(self).primary_node,
    {
        let node: Option<Node> = if self.alive_nodes.len() == 0 {
            match &self.primary_node {
                Some(primary) if primary.status != OFFLINE => Some(primary.clone()),
                _ => prefer(&self.alive_nodes, &self.alive_but_syncing_nodes),
            }
        } else {
            let first = match &self.primary_node {
                Some(primary) => primary.clone(),
                None => self.alive_nodes[0].clone(),
            };
            if first.status != OFFLINE {
                Some(first)
            } else {
                assert(first == self.alive_nodes@[0] || self.primary_node == Some(first));
                let k = find(&self.alive_nodes, first.url.as_str());
                if k == self.alive_nodes.len() - 1 {
                    Some(self.alive_nodes[0].clone())
                } else {
                    Some(self.alive_nodes[k + 1].clone())
                }
            }
        };
        proof {
            if self.wf() {
                law_primary_serves(*self);
            }
        }
        self.primary_node = node.clone();
        node
    }

    /// The node that a request goes to, which becomes the primary node. Without alive nodes, the
    /// nodes are to be checked anew first, and it is tried again: then a node that is syncing serves
    /// if there is still no alive one.
    pub fn get_execution_node(&mut self, attempt: Attempt) -> (r: Choice)
        requires
            old(self).can_move_on(),
        ensures
            if attempt == Attempt::First && old(self).alive_nodes@.len() == 0 {
                r is Recheck && *final(self) == *old(self)
            } else {
                &&& *final(self) == (NodeRouter {
                    primary_node: old(self).execution_node(),
                    ..*old(self)
                })
                &&& match old(self).execution_node() {
                    Some(chosen) => r matches Choice::Chosen { node } && node == chosen,
                    None => r is Nobody,
                }
            },
            old(self).wf() ==> final(self).wf(),
    {
        match attempt {
            Attempt::First if self.alive_nodes.len() == 0 => Choice::Recheck,
            _ => match self.choose_node() {
                Some(node) => Choice::Chosen { node },
                None => Choice::Nobody,
            },
        }
    }

    /// What to do about a request to the engine API. What goes to the nodes is the client's request
    /// under the client's token.
    pub fn do_engine_route(
        &mut self,
        data: &str,
        j: &Json,
        jwt_token: &str,
        attempt: Attempt,
    ) -> (r: EngineAction)
        requires
            route_of(j@) is Primary || route_of(j@) is Spread ==> old(self).can_move_on(),
        ensures
            match route_of(j@) {
                EngineRoute::Blocks => {
                    &&& *final(self) == *old(self)
                    &&& r matches EngineAction::GatherBlocks { requests }
                    &&& said_by(requests@) == questions(
                        old(self).alive_nodes@,
                        data@,
                        jwt_token@,
                        None,
                    )
                },
                EngineRoute::Votes => {
                    &&& *final(self) == *old(self)
                    &&& r matches EngineAction::GatherVotes { requests }
                    &&& said_by(requests@) == questions(
                        old(self).alive_nodes@,
                        data@,
                        jwt_token@,
                        Some(REQUEST_TIMEOUT_MS),
                    )
                },
                route => if attempt == Attempt::First && old(self).alive_nodes@.len() == 0 {
                    r is Recheck && *final(self) == *old(self)
                } else {
                    &&& *final(self) == (NodeRouter {
                        primary_node: old(self).execution_node(),
                        ..*old(self)
                    })
                    &&& match old(self).execution_node() {
                        Some(node) => {
                            &&& r matches EngineAction::Forward { request, spread }
                            &&& request@ == question(node, data@, jwt_token@, None)
                            &&& spread == (route == EngineRoute::Spread)
                        },
                        None => {
                            &&& r matches EngineAction::Unavailable { body, status }
                            &&& body@ == "No nodes available"@
                            &&& status == FAILURE
                        },
                    }
                },
            },
            old(self).wf() ==> final(self).wf(),
    {
        match engine_route(j) {
            EngineRoute::Blocks => EngineAction::GatherBlocks {
                requests: ask_all(&self.alive_nodes, data, jwt_token),
            },
            EngineRoute::Votes => EngineAction::GatherVotes {
                requests: poll_all(&self.alive_nodes, data, jwt_token),
            },
            route => match self.get_execution_node(attempt) {
                Choice::Recheck => EngineAction::Recheck,
                Choice::Nobody => EngineAction::Unavailable {
                    body: "No nodes available".to_owned(),
                    status: FAILURE,
                },
                Choice::Chosen { node } => EngineAction::Forward {
                    request: node.do_request_no_timeout(data, jwt_token),
                    spread: route == EngineRoute::Spread,
                },
            },
        }
    }

    /// What to do about a request that is not for the engine API.
    pub fn do_route_normal(&mut self, data: &str, jwt_token: &str, attempt: Attempt) -> (r:
        NormalAction)
        requires
            old(self).can_move_on(),
        ensures
            if attempt == Attempt::First && old(self).alive_nodes@.len() == 0 {
                r is Recheck && *final(self) == *old(self)
            } else {
                &&& *final(self) == (NodeRouter {
                    primary_node: old(self).execution_node(),
                    ..*old(self)
                })
                &&& match old(self).execution_node() {
                    Some(node) => {
                        &&& r matches NormalAction::Forward { request }
                        &&& request@ == question(node, data@, jwt_token@, None)
                    },
                    None => {
                        &&& r matches NormalAction::Unavailable { body, status }
                        &&& body@ == "No nodes available for normal request"@
                        &&& status == FAILURE
                    },
                }
            },
            old(self).wf() ==> final(self).wf(),
    {
        match self.get_execution_node(attempt) {
            Choice::Recheck => NormalAction::Recheck,
            Choice::Nobody => NormalAction::Unavailable {
                body: "No nodes available for normal request".to_owned(),
                status: FAILURE,
            },
            Choice::Chosen { node } => NormalAction::Forward {
                request: node.do_request_no_timeout(data, jwt_token),
            },
        }
    }

    /// The requests that take a client's request to the alive nodes other than the one with an
    /// address, which answered it already.
    pub fn spread_requests(&self, url: &str, data: &str, jwt_token: &str) -> (r: Vec<NodeRequest>)
        ensures
            said_by(r@) == questions(others(self.alive_nodes@, url@), data@, jwt_token@, None),
    {
        let mut targets: Vec<Node> = Vec::new();
        for i in 0..self.alive_nodes.len()
            invariant
                targets@ == others(self.alive_nodes@.take(i as int), url@),
        {
            assert(self.alive_nodes@.take(i + 1).drop_last() =~= self.alive_nodes@.take(i as int));
            if !same_text(self.alive_nodes[i].url.as_str(), url) {
                targets.push(self.alive_nodes[i].clone());
            }
        }
        assert(self.alive_nodes@.take(self.alive_nodes@.len() as int) =~= self.alive_nodes@);
        ask_all(&targets, data, jwt_token)
    }

    /// The requests that take a settled fork choice update to the nodes that are syncing, so that
    /// they catch up.
    pub fn share_requests(&self, data: &str, jwt_token: &str) -> (r: Vec<NodeRequest>)
        ensures
            said_by(r@) == questions(self.alive_but_syncing_nodes@, data@, jwt_token@, None),
    {
        ask_all(&self.alive_but_syncing_nodes, data, jwt_token)
    }

    /// The requests that a round of status checks sends, one to each node: whether it is syncing,
    /// under a token that was issued now.
    pub fn status_requests(&self) -> (r: Vec<NodeRequest>)
        ensures
            r@.len() == self.nodes@.len(),
            forall|i: int|
                0 <= i < r@.len() ==> asks_status(
                    (#[trigger] r@[i])@,
                    self.nodes@[i],
                    self.jwt_key.secret@,
                ),
    {
        let mut requests: Vec<NodeRequest> = Vec::new();
        for i in 0..self.nodes.len()
            invariant
                requests.len() == i,
                forall|k: int|
                    0 <= k < i ==> asks_status(
                        (#[trigger] requests@[k])@,
                        self.nodes@[k],
                        self.jwt_key.secret@,
                    ),
        {
            requests.push(self.nodes[i].status_request(&self.jwt_key));
        }
        requests
    }
}

/// Between rounds of status checks, requests go to the primary node, which is never offline.
pub proof fn law_primary_serves(router: NodeRouter)
    requires
        router.wf(),
    ensures
        router.can_move_on(),
        router.execution_node() == router.primary_node,
        router.primary_node matches Some(primary) ==> primary.status != OFFLINE,
{
    if router.alive_nodes@.len() > 0 {
        let i = choose|i: int|
            0 <= i < router.alive_nodes@.len() && router.alive_nodes@[i]
                == router.primary_node->0;
        assert(router.alive_nodes@[i].status == ONLINE);
    }
}

/// The choice of a node is kept: once a node that is not offline was chosen, the next request goes
/// to it too.
pub proof fn law_choice_is_kept(router: NodeRouter, node: Node)
    requires
        router.execution_node() == Some(node),
        node.status != OFFLINE,
    ensures
        (NodeRouter { primary_node: Some(node), ..router }).execution_node() == Some(node),
{
}

/// An offline primary node gives way to the alive node after it, and the last one to the first: so
/// as long as two alive nodes have different addresses, and the primary's is on the list once, the
/// requests move to another address.
pub proof fn law_offline_primary_gives_way(router: NodeRouter, primary: Node, k: int)
    requires
        router.primary_node == Some(primary),
        primary.status == OFFLINE,
        router.alive_nodes@.len() > 1,
        0 <= k < router.alive_nodes@.len(),
        router.alive_nodes@[k].url@ == primary.url@,
        forall|i: int|
            0 <= i < router.alive_nodes@.len() && i != k ==> (
            #[trigger] router.alive_nodes@[i]).url@ != primary.url@,
    ensures
        router.can_move_on(),
        router.execution_node() == Some(
            router.alive_nodes@[(k + 1) % (router.alive_nodes@.len() as int)],
        ),
        router.execution_node()->0.url@ != primary.url@,
{
    lemma_position(router.alive_nodes@, primary.url@, k);
    let n = router.alive_nodes@.len() as int;
    if k + 1 < n {
        vstd::arithmetic::div_mod::lemma_small_mod((k + 1) as nat, n as nat);
    } else {
        vstd::arithmetic::div_mod::lemma_mod_self_0(n);
    }
}

/// The first node with an address is where it is.
pub(crate) proof fn lemma_position(nodes: Seq<Node>, url: Seq<char>, k: int)
    requires
        0 <= k < nodes.len(),
        nodes[k].url@ == url,
        forall|i: int| 0 <= i < k ==> (#[trigger] nodes[i]).url@ != url,
    ensures
        position_of(nodes, url) == k,
    decreases nodes.len(),
{
    if k > 0 {
        let rest = nodes.skip(1);
        assert forall|i: int| 0 <= i < k - 1 implies (#[trigger] rest[i]).url@ != url by {
            assert(rest[i] == nodes[i + 1]);
        }
        lemma_position(rest, url, k - 1);
    }
}

/// Spreading a request reaches every alive node but those with the address that answered it
/// already, and no other.
pub proof fn law_spread_reaches_the_rest(nodes: Seq<Node>, url: Seq<char>, node: Node)
    ensures
        others(nodes, url).contains(node) <==> nodes.contains(node) && node.url@ != url,
    decreases nodes.len(),
{
    if nodes.len() > 0 {
        let before = nodes.drop_last();
        law_spread_reaches_the_rest(before, url, node);
        assert(nodes =~= before.push(nodes.last()));
        if others(nodes, url).contains(node) && !others(before, url).contains(node) {
            assert(node == nodes.last());
        }
        if others(before, url).contains(node) {
            let i = choose|i: int|
                0 <= i < others(before, url).len() && others(before, url)[i] == node;
            assert(others(nodes, url)[i] == node);
        }
        if nodes.contains(node) && node.url@ != url {
            if node == nodes.last() {
                assert(others(nodes, url).last() == node);
            } else {
                let i = choose|i: int| 0 <= i < nodes.len() && nodes[i] == node;
                assert(before[i] == node);
            }
        }
    }
}

} // verus!

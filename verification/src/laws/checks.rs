//! What status checks make of the nodes.

use vstd::prelude::*;

use crate::auth::{carries_issued, JwtKey};
use crate::json::{parsed_bytes, parsed_text, Json, JsonView};
use crate::laws::{holds, lacks};
use crate::node::{
    answered_status, answers, says_in_sync, status_question, CheckAliveResult, CheckError, Node,
    NodeRequest, StatusReply,
};
use crate::rounds::{
    law_primary_after_round, law_round_keeps_every_node, lemma_check, lemma_position_of_alive,
};
use crate::router::{check_results, checked_nodes, rechecked, NodeRouter};
use crate::standing::{
    ahead, fastest_first, is_ranking, listed, rank_alive, sort_out, standing, standing_of,
    time_of, CheckResult, Standing, Standings,
};

verus! {

/// Whether an answer to `eth_syncing` is an object whose `result` is `false`.
pub open spec fn tells_sync(answer: JsonView) -> bool {
    holds(answer, "result"@, JsonView::Bool(false))
}

/// What the body of a reply to a status check is read as.
pub open spec fn told(reply: StatusReply) -> Option<JsonView> {
    match reply {
        StatusReply::Answered { body, .. } => parsed_bytes(body@),
        _ => None,
    }
}

/// How long a reply to a status check took.
pub open spec fn took(reply: StatusReply) -> u128 {
    match reply {
        StatusReply::Answered { resp_time, .. } => resp_time,
        _ => 0,
    }
}

/// An answer says that a node is in sync only by the result `false`: an object, a text, a number,
/// `null`, `true` or no result says that it is syncing, whatever else the answer holds.
pub proof fn law_only_false_is_in_sync(answer: JsonView)
    ensures
        answered_status(answer) == 1 <==> tells_sync(answer),
        answered_status(answer) == 2 <==> !tells_sync(answer),
        lacks(answer, "result"@) ==> answered_status(answer) == 2,
        forall|members: Map<Seq<char>, JsonView>| #[trigger]
            holds(answer, "result"@, JsonView::Object(members)) ==> answered_status(answer) == 2,
{
}

/// A reply says that a node is in sync only by the result `false`, and is an answer if it is JSON.
pub proof fn law_replies_are_told_apart(reply: StatusReply)
    ensures
        says_in_sync(reply) <==> (told(reply) matches Some(answer) && tells_sync(answer)),
        answers(reply) <==> told(reply) is Some,
{
    if told(reply) is Some {
        law_only_false_is_in_sync(told(reply)->0);
    }
}

/// A node that answers is in sync if the result is `false` and syncing otherwise, and its time is
/// taken down. Nothing else of it changes.
pub proof fn law_answer_is_noted(
    node: &mut Node,
    answer: &Json,
    resp_time: u128,
    r: CheckAliveResult,
)
    requires
        call_ensures(Node::note_answer, (node, answer, resp_time), r),
    ensures
        final(node).url == old(node).url,
        final(node).resp_time == resp_time,
        final(node).status == (if tells_sync(answer@) {
            1u8
        } else {
            2u8
        }),
        r.status == final(node).status,
        r.resp_time == resp_time,
{
    law_only_false_is_in_sync(answer@);
}

/// A status check takes down an answer that is JSON. It marks a node that did not answer as offline,
/// and leaves one alone whose answer could not be read. In both cases it fails.
pub proof fn law_check_is_noted(
    node: &mut Node,
    reply: &StatusReply,
    r: Result<CheckAliveResult, CheckError>,
)
    requires
        call_ensures(Node::check_status, (node, reply), r),
    ensures
        final(node).url == old(node).url,
        told(*reply) matches Some(answer) ==> {
            &&& final(node).status == (if tells_sync(answer) {
                1u8
            } else {
                2u8
            })
            &&& final(node).resp_time == took(*reply)
            &&& r == Ok::<CheckAliveResult, CheckError>(
                CheckAliveResult { status: final(node).status, resp_time: took(*reply) },
            )
        },
        told(*reply) is None ==> r is Err && final(node).resp_time == old(node).resp_time,
        *reply is Unreachable ==> final(node).status == 0,
        told(*reply) is None && !(*reply is Unreachable) ==> final(node).status == old(node).status,
{
    if told(*reply) is Some {
        law_only_false_is_in_sync(told(*reply)->0);
    }
}

/// A check that found a status puts the node in the list for it, and one that failed among the dead.
pub proof fn law_standings_follow_checks(result: &CheckResult, r: Standing)
    requires
        call_ensures(standing, (result,), r),
    ensures
        result is Err ==> r == Standing::Dead,
        result matches Ok(found) ==> {
            &&& r == Standing::Alive <==> found.status == 1
            &&& r == Standing::Syncing <==> found.status == 2
            &&& r == Standing::Dead <==> found.status == 0
        },
{
}

/// Whether a check found a node in sync.
pub open spec fn found_in_sync(result: CheckResult) -> bool {
    result matches Ok(found) && found.status == 1
}

/// The ranking names the nodes that were found in sync, each once and no other. A faster one comes
/// before a slower one, and of two that took the same time, the one that is named earlier.
pub proof fn law_ranking_is_by_time(results: &Vec<CheckResult>, order: Vec<usize>)
    requires
        call_ensures(rank_alive, (results,), order),
    ensures
        forall|a: int|
            0 <= a < order@.len() ==> (#[trigger] order@[a]) < results@.len() && found_in_sync(
                results@[order@[a] as int],
            ),
        forall|i: int|
            0 <= i < results@.len() && found_in_sync(#[trigger] results@[i]) ==> order@.contains(
                i as usize,
            ),
        forall|a: int, b: int|
            0 <= a < b < order@.len() ==> {
                let s = results@[#[trigger] order@[a] as int]->Ok_0.resp_time;
                let t = results@[#[trigger] order@[b] as int]->Ok_0.resp_time;
                s < t || (s == t && order@[a] < order@[b])
            },
{
    assert(results.len() == results@.len());
    assert forall|i: int| 0 <= i < results@.len() && found_in_sync(
        #[trigger] results@[i],
    ) implies order@.contains(i as usize) by {
        let k = i as usize;
        assert(standing_of(results@[k as int]) == Standing::Alive);
    }
    assert forall|a: int, b: int| 0 <= a < b < order@.len() implies {
        let s = results@[#[trigger] order@[a] as int]->Ok_0.resp_time;
        let t = results@[#[trigger] order@[b] as int]->Ok_0.resp_time;
        s < t || (s == t && order@[a] < order@[b])
    } by {
        assert(ahead(results@, order@[a], order@[b]));
        assert(standing_of(results@[order@[a] as int]) == Standing::Alive);
        assert(standing_of(results@[order@[b] as int]) == Standing::Alive);
    }
}

/// A node with a standing is in the list for it, behind those that are named earlier.
proof fn lemma_listed_in_order(
    nodes: Seq<Node>,
    results: Seq<CheckResult>,
    standing: Standing,
    n: nat,
    i: int,
    j: int,
) -> (p: (int, int))
    requires
        0 <= i < j < n,
        standing_of(results[i]) == standing,
        standing_of(results[j]) == standing,
    ensures
        0 <= p.0 < p.1 < listed(nodes, results, standing, n).len(),
        listed(nodes, results, standing, n)[p.0] == nodes[i],
        listed(nodes, results, standing, n)[p.1] == nodes[j],
    decreases n,
{
    if j < n - 1 {
        lemma_listed_in_order(nodes, results, standing, (n - 1) as nat, i, j)
    } else {
        let a = lemma_listed_at(nodes, results, standing, (n - 1) as nat, i);
        (a, listed(nodes, results, standing, n).len() - 1)
    }
}

/// A node with a standing is in the list for it.
proof fn lemma_listed_at(
    nodes: Seq<Node>,
    results: Seq<CheckResult>,
    standing: Standing,
    n: nat,
    i: int,
) -> (a: int)
    requires
        0 <= i < n,
        standing_of(results[i]) == standing,
    ensures
        0 <= a < listed(nodes, results, standing, n).len(),
        listed(nodes, results, standing, n)[a] == nodes[i],
    decreases n,
{
    if i < n - 1 {
        lemma_listed_at(nodes, results, standing, (n - 1) as nat, i)
    } else {
        listed(nodes, results, standing, n).len() - 1
    }
}

/// A node that is ahead of another is listed as alive before it.
proof fn lemma_alive_in_order(
    alive: Seq<Node>,
    nodes: Seq<Node>,
    results: Seq<CheckResult>,
    i: int,
    j: int,
) -> (p: (int, int))
    requires
        nodes.len() == results.len() <= usize::MAX,
        fastest_first(alive, nodes, results),
        0 <= i < nodes.len(),
        0 <= j < nodes.len(),
        standing_of(results[i]) == Standing::Alive,
        standing_of(results[j]) == Standing::Alive,
        ahead(results, i as usize, j as usize),
    ensures
        0 <= p.0 < p.1 < alive.len(),
        alive[p.0] == nodes[i],
        alive[p.1] == nodes[j],
{
    let order = choose|order: Seq<usize>|
        #[trigger] is_ranking(order, results) && alive == order.map_values(
            |i: usize| nodes[i as int],
        );
    let k = i as usize;
    let l = j as usize;
    assert(standing_of(results[k as int]) == Standing::Alive);
    assert(standing_of(results[l as int]) == Standing::Alive);
    let a = choose|a: int| 0 <= a < order.len() && order[a] == k;
    let b = choose|b: int| 0 <= b < order.len() && order[b] == l;
    if b < a {
        assert(ahead(results, order[b], order[a]));
    }
    (a, b)
}

/// Sorting the nodes out puts a faster alive node before a slower one, and the earlier named one
/// before another that took the same time. The others keep their order. The fastest alive node is
/// preferred, then the first that is syncing.
pub proof fn law_nodes_are_sorted_out(
    nodes: &Vec<Node>,
    results: &Vec<CheckResult>,
    r: Standings,
    i: int,
    j: int,
)
    requires
        call_ensures(sort_out, (nodes, results), r),
        nodes@.len() == results@.len(),
        0 <= i < nodes@.len(),
        0 <= j < nodes@.len(),
    ensures
        ({
            let s = results@[i]->Ok_0.resp_time;
            let t = results@[j]->Ok_0.resp_time;
            found_in_sync(results@[i]) && found_in_sync(results@[j]) && (s < t || (s == t && i < j))
        }) ==> exists|a: int, b: int|
            #![trigger r.alive_nodes@[a], r.alive_nodes@[b]]
            0 <= a < b < r.alive_nodes@.len() && r.alive_nodes@[a] == nodes@[i] && r.alive_nodes@[b]
                == nodes@[j],
        i < j && (results@[i] matches Ok(found) && found.status == 2) && (results@[j] matches Ok(
            found,
        ) && found.status == 2) ==> exists|a: int, b: int|
            #![trigger r.alive_but_syncing_nodes@[a], r.alive_but_syncing_nodes@[b]]
            0 <= a < b < r.alive_but_syncing_nodes@.len() && r.alive_but_syncing_nodes@[a]
                == nodes@[i] && r.alive_but_syncing_nodes@[b] == nodes@[j],
        i < j && results@[i] is Err && results@[j] is Err ==> exists|a: int, b: int|
            #![trigger r.dead_nodes@[a], r.dead_nodes@[b]]
            0 <= a < b < r.dead_nodes@.len() && r.dead_nodes@[a] == nodes@[i] && r.dead_nodes@[b]
                == nodes@[j],
        r.alive_nodes@.len() > 0 ==> r.primary_node == Some(r.alive_nodes@[0]),
        r.alive_nodes@.len() == 0 && r.alive_but_syncing_nodes@.len() > 0 ==> r.primary_node == Some(
            r.alive_but_syncing_nodes@[0],
        ),
        r.alive_nodes@.len() == 0 && r.alive_but_syncing_nodes@.len() == 0 ==> r.primary_node is None,
{
    assert(nodes.len() == nodes@.len());
    let n = nodes@.len();
    let s = results@[i]->Ok_0.resp_time;
    let t = results@[j]->Ok_0.resp_time;
    if found_in_sync(results@[i]) && found_in_sync(results@[j]) && (s < t || (s == t && i < j)) {
        let p = lemma_alive_in_order(r.alive_nodes@, nodes@, results@, i, j);
        assert(r.alive_nodes@[p.0] == nodes@[i] && r.alive_nodes@[p.1] == nodes@[j]);
    }
    if i < j {
        if standing_of(results@[i]) == Standing::Syncing && standing_of(results@[j])
            == Standing::Syncing {
            let p = lemma_listed_in_order(nodes@, results@, Standing::Syncing, n, i, j);
            assert(r.alive_but_syncing_nodes@[p.0] == nodes@[i]
                && r.alive_but_syncing_nodes@[p.1] == nodes@[j]);
        }
        if standing_of(results@[i]) == Standing::Dead && standing_of(results@[j])
            == Standing::Dead {
            let p = lemma_listed_in_order(nodes@, results@, Standing::Dead, n, i, j);
            assert(r.dead_nodes@[p.0] == nodes@[i] && r.dead_nodes@[p.1] == nodes@[j]);
        }
    }
}

/// A round of status checks lists each node by what it replied: as alive if its answer has the result
/// `false`, as syncing if it has another, and as dead if there was none that could be read. The node
/// is listed under its address, with its new status and the time that its answer took. No list holds
/// more, and the nodes and the key stay as they were.
pub proof fn law_round_lists_by_reply(
    router: &mut NodeRouter,
    replies: &Vec<StatusReply>,
    i: int,
)
    requires
        call_ensures(NodeRouter::recheck, (router, replies), ()),
        replies@.len() == old(router).nodes@.len(),
        0 <= i < replies@.len(),
    ensures
        final(router).nodes == old(router).nodes,
        final(router).jwt_key == old(router).jwt_key,
        final(router).alive_nodes@.len() + final(router).alive_but_syncing_nodes@.len() + final(router).dead_nodes@.len() == old(router).nodes@.len(),
        (told(replies@[i]) matches Some(answer) && tells_sync(answer)) ==> exists|a: int|
            0 <= a < final(router).alive_nodes@.len() && #[trigger] final(router).alive_nodes@[a] == (
            Node { status: 1, resp_time: took(replies@[i]), ..old(router).nodes@[i] }),
        (told(replies@[i]) matches Some(answer) && !tells_sync(answer)) ==> exists|a: int|
            0 <= a < final(router).alive_but_syncing_nodes@.len() && #[trigger] final(router).alive_but_syncing_nodes@[a] == (Node {
                status: 2,
                resp_time: took(replies@[i]),
                ..old(router).nodes@[i]
            }),
        told(replies@[i]) is None ==> exists|a: int|
            0 <= a < final(router).dead_nodes@.len() && (#[trigger] final(router).dead_nodes@[a]).url
                == old(router).nodes@[i].url,
{
    let before = *old(router);
    let after = *final(router);
    lemma_round_lists_by_reply(before, replies@, after, i);
    assert(before.nodes.len() == before.nodes@.len());
}

/// A round of status checks lists each node by what it replied.
proof fn lemma_round_lists_by_reply(
    before: NodeRouter,
    replies: Seq<StatusReply>,
    after: NodeRouter,
    i: int,
)
    requires
        rechecked(before, replies, after),
        replies.len() == before.nodes@.len(),
        0 <= i < replies.len(),
    ensures
        after.alive_nodes@.len() + after.alive_but_syncing_nodes@.len() + after.dead_nodes@.len()
            == before.nodes@.len(),
        (told(replies[i]) matches Some(answer) && tells_sync(answer)) ==> exists|a: int|
            0 <= a < after.alive_nodes@.len() && #[trigger] after.alive_nodes@[a] == (Node {
                status: 1,
                resp_time: took(replies[i]),
                ..before.nodes@[i]
            }),
        (told(replies[i]) matches Some(answer) && !tells_sync(answer)) ==> exists|a: int|
            0 <= a < after.alive_but_syncing_nodes@.len()
                && #[trigger] after.alive_but_syncing_nodes@[a] == (Node {
                status: 2,
                resp_time: took(replies[i]),
                ..before.nodes@[i]
            }),
        told(replies[i]) is None ==> exists|a: int|
            0 <= a < after.dead_nodes@.len() && (#[trigger] after.dead_nodes@[a]).url
                == before.nodes@[i].url,
{
    broadcast use vstd::seq_lib::group_to_multiset_ensures;

    let nodes = checked_nodes(before.nodes@, replies);
    let results = check_results(before.nodes@, replies);
    assert(before.nodes.len() == before.nodes@.len());
    law_round_keeps_every_node(before, replies, after);
    assert(after.alive_nodes@.to_multiset().len() == after.alive_nodes@.len());
    assert(after.alive_but_syncing_nodes@.to_multiset().len()
        == after.alive_but_syncing_nodes@.len());
    assert(after.dead_nodes@.to_multiset().len() == after.dead_nodes@.len());
    assert(nodes.to_multiset().len() == nodes.len());
    law_replies_are_told_apart(replies[i]);
    lemma_check(before.nodes@, replies, i);
    if says_in_sync(replies[i]) {
        let a = lemma_position_of_alive(after.alive_nodes@, nodes, results, i);
        assert(after.alive_nodes@[a] == nodes[i]);
    } else if answers(replies[i]) {
        let a = lemma_listed_at(nodes, results, Standing::Syncing, nodes.len(), i);
        assert(after.alive_but_syncing_nodes@[a] == nodes[i]);
    } else {
        let a = lemma_listed_at(nodes, results, Standing::Dead, nodes.len(), i);
        assert(after.dead_nodes@[a] == nodes[i]);
    }
}

/// After a round of status checks a node in sync that answered faster comes before another, and so
/// does the earlier named one of two that took the same time. Nodes that are syncing keep their order,
/// and so do dead ones.
pub proof fn law_round_keeps_order(
    router: &mut NodeRouter,
    replies: &Vec<StatusReply>,
    i: int,
    j: int,
)
    requires
        call_ensures(NodeRouter::recheck, (router, replies), ()),
        replies@.len() == old(router).nodes@.len(),
        0 <= i < replies@.len(),
        0 <= j < replies@.len(),
    ensures
        (told(replies@[i]) matches Some(x) && tells_sync(x)) && (told(replies@[j]) matches Some(y)
            && tells_sync(y)) && (took(replies@[i]) < took(replies@[j]) || (took(replies@[i]) == took(
            replies@[j],
        ) && i < j)) ==> exists|a: int, b: int|
            #![trigger final(router).alive_nodes@[a], final(router).alive_nodes@[b]]
            0 <= a < b < final(router).alive_nodes@.len() && final(router).alive_nodes@[a].url == old(router).nodes@[i].url && final(router).alive_nodes@[b].url == old(router).nodes@[j].url,
        i < j && (told(replies@[i]) matches Some(x) && !tells_sync(x)) && (told(
            replies@[j],
        ) matches Some(y) && !tells_sync(y)) ==> exists|a: int, b: int|
            #![trigger final(router).alive_but_syncing_nodes@[a], final(router).alive_but_syncing_nodes@[b]]
            0 <= a < b < final(router).alive_but_syncing_nodes@.len() && final(router).alive_but_syncing_nodes@[a].url == old(router).nodes@[i].url && final(router).alive_but_syncing_nodes@[b].url == old(router).nodes@[j].url,
        i < j && told(replies@[i]) is None && told(replies@[j]) is None ==> exists|a: int, b: int|
            #![trigger final(router).dead_nodes@[a], final(router).dead_nodes@[b]]
            0 <= a < b < final(router).dead_nodes@.len() && final(router).dead_nodes@[a].url == old(router).nodes@[i].url && final(router).dead_nodes@[b].url == old(router).nodes@[j].url,
{
    let before = *old(router);
    let after = *final(router);
    let nodes = checked_nodes(before.nodes@, replies@);
    let results = check_results(before.nodes@, replies@);
    assert(before.nodes.len() == before.nodes@.len());
    law_replies_are_told_apart(replies@[i]);
    law_replies_are_told_apart(replies@[j]);
    lemma_check(before.nodes@, replies@, i);
    lemma_check(before.nodes@, replies@, j);
    let n = nodes.len();
    if says_in_sync(replies@[i]) && says_in_sync(replies@[j]) && (took(replies@[i]) < took(
        replies@[j],
    ) || (took(replies@[i]) == took(replies@[j]) && i < j)) {
        assert(time_of(results[i]) == took(replies@[i]) && time_of(results[j]) == took(replies@[j]));
        let p = lemma_alive_in_order(after.alive_nodes@, nodes, results, i, j);
        assert(after.alive_nodes@[p.0] == nodes[i] && after.alive_nodes@[p.1] == nodes[j]);
    }
    if i < j && standing_of(results[i]) == Standing::Syncing && standing_of(results[j])
        == Standing::Syncing {
        let p = lemma_listed_in_order(nodes, results, Standing::Syncing, n, i, j);
        assert(after.alive_but_syncing_nodes@[p.0] == nodes[i]
            && after.alive_but_syncing_nodes@[p.1] == nodes[j]);
    }
    if i < j && standing_of(results[i]) == Standing::Dead && standing_of(results[j])
        == Standing::Dead {
        let p = lemma_listed_in_order(nodes, results, Standing::Dead, n, i, j);
        assert(after.dead_nodes@[p.0] == nodes[i] && after.dead_nodes@[p.1] == nodes[j]);
    }
}

/// After a round of status checks requests go to a node in sync that nobody beat in time, if any is in
/// sync; else to the first that is syncing; and nowhere if no node answered.
pub proof fn law_round_picks_the_primary(router: &mut NodeRouter, replies: &Vec<StatusReply>, i: int)
    requires
        call_ensures(NodeRouter::recheck, (router, replies), ()),
        replies@.len() == old(router).nodes@.len(),
    ensures
        0 <= i < replies@.len() && (told(replies@[i]) matches Some(answer) && tells_sync(answer)) ==> (
        final(router).primary_node matches Some(primary) && primary.status == 1 && primary.resp_time
            <= took(replies@[i])),
        0 <= i < replies@.len() && (told(replies@[i]) matches Some(answer) && !tells_sync(answer)) && (
        forall|j: int|
            0 <= j < replies@.len() ==> !(told(#[trigger] replies@[j]) matches Some(other)
                && tells_sync(other))) && (forall|j: int|
            0 <= j < i ==> told(#[trigger] replies@[j]) is None) ==> final(router).primary_node == Some(
            Node { status: 2, resp_time: took(replies@[i]), ..old(router).nodes@[i] },
        ),
        (forall|j: int| 0 <= j < replies@.len() ==> told(#[trigger] replies@[j]) is None) ==> final(router).primary_node is None,
{
    let before = *old(router);
    let after = *final(router);
    assert(before.nodes.len() == before.nodes@.len());
    assert forall|j: int| 0 <= j < replies@.len() implies (says_in_sync(#[trigger] replies@[j]) <==> (
    told(replies@[j]) matches Some(other) && tells_sync(other))) && (answers(replies@[j]) <==> told(
        replies@[j],
    ) is Some) by {
        law_replies_are_told_apart(replies@[j]);
    }
    law_primary_after_round(before, replies@, after);
    if 0 <= i < replies@.len() {
        lemma_check(before.nodes@, replies@, i);
        if says_in_sync(replies@[i]) {
            crate::rounds::law_one_synced_node_suffices(before, replies@, after, i);
        } else if answers(replies@[i]) && (forall|j: int|
            0 <= j < replies@.len() ==> !says_in_sync(#[trigger] replies@[j])) && (forall|j: int|
            0 <= j < i ==> !answers(#[trigger] replies@[j])) {
            crate::rounds::law_syncing_node_stands_in(before, replies@, after, i);
        }
    }
    if forall|j: int| 0 <= j < replies@.len() ==> !answers(#[trigger] replies@[j]) {
        crate::rounds::law_nobody_only_if_none_answers(before, replies@, after);
    }
}

/// Whether a text is JSON that asks whether a node is syncing.
pub open spec fn asks_whether_syncing(text: Seq<char>) -> bool {
    exists|asked: JsonView|
        #![trigger holds(asked, "method"@, JsonView::Str("eth_syncing"@))]
        parsed_text(text) == Some(asked) && holds(asked, "method"@, JsonView::Str("eth_syncing"@))
            && holds(asked, "jsonrpc"@, JsonView::Str("2.0"@)) && holds(
            asked,
            "params"@,
            JsonView::Array(Seq::empty()),
        ) && holds(asked, "id"@, JsonView::Integer(1))
}

/// The body of a status check asks whether the node is syncing.
pub(crate) proof fn lemma_asks(text: Seq<char>)
    requires
        parsed_text(text) == Some(status_question()),
    ensures
        asks_whether_syncing(text),
{
    reveal_strlit("jsonrpc");
    reveal_strlit("method");
    reveal_strlit("params");
    reveal_strlit("id");
    assert("jsonrpc"@.len() == 7 && "method"@.len() == 6 && "params"@.len() == 6 && "id"@.len() == 2);
    assert("method"@[0] != "params"@[0]);
    let asked = status_question();
    assert(holds(asked, "method"@, JsonView::Str("eth_syncing"@)));
}

/// Marking a node changes its status and nothing else, and a new node was not checked.
pub proof fn law_marks_are_of_the_status(
    online: &mut Node,
    offline: &mut Node,
    syncing: &mut Node,
    url: String,
    new: Node,
)
    requires
        call_ensures(Node::set_online, (online,), ()),
        call_ensures(Node::set_offline, (offline,), ()),
        call_ensures(Node::set_syncing, (syncing,), ()),
        call_ensures(Node::new, (url,), new),
    ensures
        *final(online) == (Node { status: 1, ..*old(online) }),
        *final(offline) == (Node { status: 0, ..*old(offline) }),
        *final(syncing) == (Node { status: 2, ..*old(syncing) }),
        new == (Node { url, status: 4, resp_time: 0 }),
{
}

/// A status check asks the node at its address whether it is syncing, and nothing else, under a token
/// that is dated by the clock, and gives it all the time that it takes.
pub proof fn law_status_is_asked(node: &Node, jwt_key: &JwtKey, r: NodeRequest)
    requires
        call_ensures(Node::status_request, (node, jwt_key), r),
    ensures
        r.url@ == node.url@,
        r.timeout_ms is None,
        carries_issued(r.authorization@, jwt_key.secret@),
        asks_whether_syncing(r.body@),
{
    lemma_asks(r.body@);
}

} // verus!

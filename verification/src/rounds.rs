//! What a round of status checks does to the lists of nodes.

use vstd::prelude::*;

use crate::node::{answers, checked, says_in_sync, Node, StatusReply, ONLINE, SYNCING};
use crate::router::{check_results, checked_nodes, rechecked, NodeRouter};
use crate::standing::{
    ahead, fastest_first, is_ranking, law_every_node_listed_once, lemma_listed_standing, listed,
    standing_of, time_of, CheckResult, Standing,
};

verus! {

/// The addresses of nodes.
pub open spec fn urls(nodes: Seq<Node>) -> Seq<Seq<char>> {
    nodes.map_values(|node: Node| node.url@)
}

/// Whether no other node has the address of the one at a position.
pub open spec fn has_own_url(nodes: Seq<Node>, i: int) -> bool {
    forall|j: int| 0 <= j < nodes.len() && j != i ==> (#[trigger] nodes[j]).url@ != nodes[i].url@
}

/// A check keeps a node's address, and its result has the standing that the reply leads to.
pub(crate) proof fn lemma_check(nodes: Seq<Node>, replies: Seq<StatusReply>, i: int)
    requires
        0 <= i < nodes.len() == replies.len(),
    ensures
        checked_nodes(nodes, replies)[i] == checked(nodes[i], replies[i]).0,
        check_results(nodes, replies)[i] == checked(nodes[i], replies[i]).1,
        checked_nodes(nodes, replies)[i].url == nodes[i].url,
        standing_of(check_results(nodes, replies)[i]) == if says_in_sync(replies[i]) {
            Standing::Alive
        } else if answers(replies[i]) {
            Standing::Syncing
        } else {
            Standing::Dead
        },
        says_in_sync(replies[i]) ==> checked_nodes(nodes, replies)[i].status == ONLINE
            && checked_nodes(nodes, replies)[i].resp_time == time_of(
            check_results(nodes, replies)[i],
        ),
        answers(replies[i]) && !says_in_sync(replies[i]) ==> checked_nodes(nodes, replies)[i].status
            == SYNCING,
{
}

/// An alive node is one that was found in sync.
proof fn lemma_alive_position(
    alive: Seq<Node>,
    nodes: Seq<Node>,
    results: Seq<CheckResult>,
    a: int,
) -> (i: int)
    requires
        nodes.len() == results.len(),
        fastest_first(alive, nodes, results),
        0 <= a < alive.len(),
    ensures
        0 <= i < nodes.len(),
        alive[a] == nodes[i],
        standing_of(results[i]) == Standing::Alive,
{
    let order = choose|order: Seq<usize>|
        #[trigger] is_ranking(order, results) && alive == order.map_values(
            |i: usize| nodes[i as int],
        );
    assert(order[a] < results.len());
    order[a] as int
}

/// A node that was found in sync is alive.
pub(crate) proof fn lemma_position_of_alive(
    alive: Seq<Node>,
    nodes: Seq<Node>,
    results: Seq<CheckResult>,
    i: int,
) -> (a: int)
    requires
        nodes.len() == results.len() <= usize::MAX,
        fastest_first(alive, nodes, results),
        0 <= i < nodes.len(),
        standing_of(results[i]) == Standing::Alive,
    ensures
        0 <= a < alive.len(),
        alive[a] == nodes[i],
{
    let order = choose|order: Seq<usize>|
        #[trigger] is_ranking(order, results) && alive == order.map_values(
            |i: usize| nodes[i as int],
        );
    let k = i as usize;
    assert(standing_of(results[k as int]) == Standing::Alive);
    choose|a: int| 0 <= a < order.len() && order[a] == k
}

/// A node with a standing is in the list that is for it.
proof fn lemma_is_listed(
    nodes: Seq<Node>,
    results: Seq<CheckResult>,
    standing: Standing,
    n: nat,
    i: int,
)
    requires
        0 <= i < n,
        standing_of(results[i]) == standing,
    ensures
        listed(nodes, results, standing, n).len() > 0,
        (forall|j: int| 0 <= j < i ==> standing_of(#[trigger] results[j]) != standing)
            ==> listed(nodes, results, standing, n)[0] == nodes[i],
    decreases n,
{
    if i < n - 1 {
        lemma_is_listed(nodes, results, standing, (n - 1) as nat, i);
    } else if forall|j: int| 0 <= j < i ==> standing_of(#[trigger] results[j]) != standing {
        if listed(nodes, results, standing, (n - 1) as nat).len() > 0 {
            let j = lemma_listed_standing(nodes, results, standing, (n - 1) as nat, 0);
            assert(standing_of(results[j]) != standing);
        }
    }
}

/// After a round of status checks the alive nodes are all in sync, the syncing ones are all syncing,
/// and no alive node stands behind one that took longer to answer.
pub proof fn law_round_sets_statuses(
    before: NodeRouter,
    replies: Seq<StatusReply>,
    after: NodeRouter,
)
    requires
        replies.len() == before.nodes@.len(),
        rechecked(before, replies, after),
    ensures
        forall|a: int|
            0 <= a < after.alive_nodes@.len() ==> (#[trigger] after.alive_nodes@[a]).status
                == ONLINE,
        forall|a: int|
            0 <= a < after.alive_but_syncing_nodes@.len() ==> (
            #[trigger] after.alive_but_syncing_nodes@[a]).status == SYNCING,
        forall|a: int, b: int|
            0 <= a <= b < after.alive_nodes@.len() ==> (#[trigger] after.alive_nodes@[a]).resp_time
                <= (#[trigger] after.alive_nodes@[b]).resp_time,
{
    let nodes = checked_nodes(before.nodes@, replies);
    let results = check_results(before.nodes@, replies);
    let alive = after.alive_nodes@;
    let syncing = after.alive_but_syncing_nodes@;
    let order = choose|order: Seq<usize>|
        #[trigger] is_ranking(order, results) && alive == order.map_values(
            |i: usize| nodes[i as int],
        );
    assert forall|a: int| 0 <= a < alive.len() implies (#[trigger] alive[a]).status == ONLINE
        && alive[a].resp_time == time_of(results[order[a] as int]) by {
        assert(order[a] < results.len());
        lemma_check(before.nodes@, replies, order[a] as int);
    }
    assert forall|a: int, b: int| 0 <= a <= b < alive.len() implies (#[trigger] alive[a]).resp_time
        <= (#[trigger] alive[b]).resp_time by {
        if a < b {
            assert(ahead(results, order[a], order[b]));
        }
    }
    assert forall|a: int| 0 <= a < syncing.len() implies (#[trigger] syncing[a]).status
        == SYNCING by {
        let i = lemma_listed_standing(nodes, results, Standing::Syncing, nodes.len(), a);
        lemma_check(before.nodes@, replies, i);
    }
}

/// Nodes that are the same but for their order have the same addresses.
proof fn lemma_same_urls(some: Seq<Node>, same: Seq<Node>)
    requires
        some.to_multiset() == same.to_multiset(),
    ensures
        urls(some).to_multiset() == urls(same).to_multiset(),
    decreases some.len(),
{
    broadcast use vstd::seq_lib::group_to_multiset_ensures;

    assert(some.len() == some.to_multiset().len() && same.len() == same.to_multiset().len());
    if some.len() == 0 {
        assert(urls(some) =~= urls(same));
    } else {
        let last = some.len() - 1;
        let node = some[last];
        assert(some.contains(node));
        assert(same.to_multiset().count(node) > 0);
        let p = choose|p: int| 0 <= p < same.len() && same[p] == node;
        vstd::seq_lib::to_multiset_remove(some, last);
        vstd::seq_lib::to_multiset_remove(same, p);
        lemma_same_urls(some.remove(last), same.remove(p));
        assert(urls(some.remove(last)) =~= urls(some).remove(last));
        assert(urls(same.remove(p)) =~= urls(same).remove(p));
        vstd::seq_lib::to_multiset_remove(urls(some), last);
        vstd::seq_lib::to_multiset_remove(urls(same), p);
        let url = node.url@;
        assert(urls(some)[last] == url && urls(same)[p] == url);
        assert(urls(some).contains(url) && urls(same).contains(url));
        assert(urls(some).to_multiset() =~= urls(some).to_multiset().remove(url).insert(url));
        assert(urls(same).to_multiset() =~= urls(same).to_multiset().remove(url).insert(url));
    }
}

/// A round of status checks loses no node and doubles none: the alive, the syncing and the dead
/// nodes together are all nodes, each as its check left it, and have the addresses that were named.
pub proof fn law_round_keeps_every_node(
    before: NodeRouter,
    replies: Seq<StatusReply>,
    after: NodeRouter,
)
    requires
        replies.len() == before.nodes@.len(),
        rechecked(before, replies, after),
    ensures
        after.alive_nodes@.to_multiset().add(after.alive_but_syncing_nodes@.to_multiset()).add(
            after.dead_nodes@.to_multiset(),
        ) == checked_nodes(before.nodes@, replies).to_multiset(),
        urls(after.alive_nodes@).to_multiset().add(
            urls(after.alive_but_syncing_nodes@).to_multiset(),
        ).add(urls(after.dead_nodes@).to_multiset()) == urls(before.nodes@).to_multiset(),
{
    let nodes = checked_nodes(before.nodes@, replies);
    let results = check_results(before.nodes@, replies);
    let alive = after.alive_nodes@;
    let syncing = after.alive_but_syncing_nodes@;
    let dead = after.dead_nodes@;
    assert(before.nodes.len() == before.nodes@.len());
    assert forall|i: int| 0 <= i < results.len() implies #[trigger] standing_of(results[i])
        != Standing::Unlisted by {
        lemma_check(before.nodes@, replies, i);
    }
    law_every_node_listed_once(alive, nodes, results);
    vstd::seq_lib::lemma_multiset_commutative(alive, syncing);
    vstd::seq_lib::lemma_multiset_commutative(alive + syncing, dead);
    lemma_same_urls(alive + syncing + dead, nodes);
    vstd::seq_lib::lemma_multiset_commutative(urls(alive), urls(syncing));
    vstd::seq_lib::lemma_multiset_commutative(urls(alive) + urls(syncing), urls(dead));
    assert(urls(alive + syncing + dead) =~= urls(alive) + urls(syncing) + urls(dead));
    assert(urls(nodes) =~= urls(before.nodes@));
}

/// After a round of status checks the primary node is the fastest alive node. Without alive nodes it
/// is the first that is syncing, and there is none without these. It is never one whose check failed,
/// nor has any node of no use its address, if the addresses differ.
pub proof fn law_primary_after_round(
    before: NodeRouter,
    replies: Seq<StatusReply>,
    after: NodeRouter,
)
    requires
        replies.len() == before.nodes@.len(),
        rechecked(before, replies, after),
    ensures
        after.alive_nodes@.len() > 0 ==> after.primary_node == Some(after.alive_nodes@[0]),
        after.alive_nodes@.len() > 0 ==> forall|a: int|
            0 <= a < after.alive_nodes@.len() ==> after.alive_nodes@[0].resp_time <= (
            #[trigger] after.alive_nodes@[a]).resp_time,
        after.alive_nodes@.len() == 0 && after.alive_but_syncing_nodes@.len() > 0
            ==> after.primary_node == Some(after.alive_but_syncing_nodes@[0]),
        after.primary_node is None <==> after.alive_nodes@.len() == 0
            && after.alive_but_syncing_nodes@.len() == 0,
        after.primary_node matches Some(primary) ==> exists|i: int|
            0 <= i < replies.len() && answers(#[trigger] replies[i]) && primary == checked_nodes(
                before.nodes@,
                replies,
            )[i],
        (forall|i: int| 0 <= i < before.nodes@.len() ==> #[trigger] has_own_url(before.nodes@, i))
            ==> (after.primary_node matches Some(primary) ==> forall|k: int|
            0 <= k < after.dead_nodes@.len() ==> (#[trigger] after.dead_nodes@[k]).url@
                != primary.url@),
{
    let nodes = checked_nodes(before.nodes@, replies);
    let results = check_results(before.nodes@, replies);
    law_round_sets_statuses(before, replies, after);
    if after.primary_node is Some {
        let i = if after.alive_nodes@.len() > 0 {
            lemma_alive_position(after.alive_nodes@, nodes, results, 0)
        } else {
            lemma_listed_standing(nodes, results, Standing::Syncing, nodes.len(), 0)
        };
        lemma_check(before.nodes@, replies, i);
        assert(answers(replies[i]));
        if forall|i: int| 0 <= i < before.nodes@.len() ==> #[trigger] has_own_url(
            before.nodes@,
            i,
        ) {
            assert(has_own_url(before.nodes@, i));
            assert forall|k: int| 0 <= k < after.dead_nodes@.len() implies (
            #[trigger] after.dead_nodes@[k]).url@ != after.primary_node->0.url@ by {
                let j = lemma_listed_standing(nodes, results, Standing::Dead, nodes.len(), k);
                lemma_check(before.nodes@, replies, j);
            }
        }
    }
}

/// A node that was dead comes back: whatever an earlier round found, a node that says in the next
/// one that it is in sync is alive then, and if no other has its address, it is neither dead nor
/// syncing. The nodes that the rounds go over stay as they were named.
pub proof fn law_dead_node_comes_back(
    start: NodeRouter,
    earlier: Seq<StatusReply>,
    middle: NodeRouter,
    replies: Seq<StatusReply>,
    end: NodeRouter,
    i: int,
)
    requires
        earlier.len() == start.nodes@.len(),
        rechecked(start, earlier, middle),
        replies.len() == middle.nodes@.len(),
        rechecked(middle, replies, end),
        0 <= i < start.nodes@.len(),
        says_in_sync(replies[i]),
    ensures
        end.nodes == start.nodes,
        exists|a: int|
            0 <= a < end.alive_nodes@.len() && (#[trigger] end.alive_nodes@[a]) == checked(
                start.nodes@[i],
                replies[i],
            ).0,
        has_own_url(start.nodes@, i) ==> forall|k: int|
            0 <= k < end.dead_nodes@.len() ==> (#[trigger] end.dead_nodes@[k]).url@
                != start.nodes@[i].url@,
        has_own_url(start.nodes@, i) ==> forall|k: int|
            0 <= k < end.alive_but_syncing_nodes@.len() ==> (
            #[trigger] end.alive_but_syncing_nodes@[k]).url@ != start.nodes@[i].url@,
{
    let nodes = checked_nodes(middle.nodes@, replies);
    let results = check_results(middle.nodes@, replies);
    assert(start.nodes.len() == start.nodes@.len());
    lemma_check(middle.nodes@, replies, i);
    let a = lemma_position_of_alive(end.alive_nodes@, nodes, results, i);
    assert(end.alive_nodes@[a] == checked(start.nodes@[i], replies[i]).0);
    if has_own_url(start.nodes@, i) {
        assert forall|k: int| 0 <= k < end.dead_nodes@.len() implies (
        #[trigger] end.dead_nodes@[k]).url@ != start.nodes@[i].url@ by {
            let j = lemma_listed_standing(nodes, results, Standing::Dead, nodes.len(), k);
            lemma_check(middle.nodes@, replies, j);
        }
        assert forall|k: int| 0 <= k < end.alive_but_syncing_nodes@.len() implies (
        #[trigger] end.alive_but_syncing_nodes@[k]).url@ != start.nodes@[i].url@ by {
            let j = lemma_listed_standing(nodes, results, Standing::Syncing, nodes.len(), k);
            lemma_check(middle.nodes@, replies, j);
        }
    }
}

/// One node in sync is enough to serve requests: after a round of status checks in which a node said
/// that it is in sync, requests go to a node that is in sync and took no longer to answer than that
/// one.
pub proof fn law_one_synced_node_suffices(
    before: NodeRouter,
    replies: Seq<StatusReply>,
    after: NodeRouter,
    i: int,
)
    requires
        replies.len() == before.nodes@.len(),
        rechecked(before, replies, after),
        0 <= i < replies.len(),
        says_in_sync(replies[i]),
    ensures
        after.can_move_on(),
        after.execution_node() matches Some(node) && node == after.alive_nodes@[0] && node.status
            == ONLINE && node.resp_time <= checked(before.nodes@[i], replies[i]).0.resp_time,
{
    let nodes = checked_nodes(before.nodes@, replies);
    let results = check_results(before.nodes@, replies);
    assert(before.nodes.len() == before.nodes@.len());
    lemma_check(before.nodes@, replies, i);
    let a = lemma_position_of_alive(after.alive_nodes@, nodes, results, i);
    law_round_sets_statuses(before, replies, after);
    assert(after.alive_nodes@[0].status == ONLINE);
    assert(after.alive_nodes@[0].resp_time <= after.alive_nodes@[a].resp_time);
}

/// Where no node is in sync, one that is syncing serves: requests go to the first node that answered
/// the round of status checks.
pub proof fn law_syncing_node_stands_in(
    before: NodeRouter,
    replies: Seq<StatusReply>,
    after: NodeRouter,
    i: int,
)
    requires
        replies.len() == before.nodes@.len(),
        rechecked(before, replies, after),
        0 <= i < replies.len(),
        answers(replies[i]),
        forall|j: int| 0 <= j < i ==> !answers(#[trigger] replies[j]),
        forall|j: int| 0 <= j < replies.len() ==> !says_in_sync(#[trigger] replies[j]),
    ensures
        after.can_move_on(),
        after.execution_node() == Some(checked(before.nodes@[i], replies[i]).0),
        after.primary_node == after.execution_node(),
        after.execution_node()->0.status == SYNCING,
        after.execution_node()->0.url == before.nodes@[i].url,
{
    let nodes = checked_nodes(before.nodes@, replies);
    let results = check_results(before.nodes@, replies);
    assert(after.alive_nodes@.len() == 0) by {
        if after.alive_nodes@.len() > 0 {
            let j = lemma_alive_position(after.alive_nodes@, nodes, results, 0);
            lemma_check(before.nodes@, replies, j);
            assert(!says_in_sync(replies[j]));
        }
    }
    assert(!says_in_sync(replies[i]));
    lemma_check(before.nodes@, replies, i);
    assert forall|j: int| 0 <= j < i implies standing_of(#[trigger] results[j])
        != Standing::Syncing by {
        lemma_check(before.nodes@, replies, j);
        assert(!answers(replies[j]));
    }
    lemma_is_listed(nodes, results, Standing::Syncing, nodes.len(), i);
}

/// After a round of status checks there is no node for a request only if none of them answered.
pub proof fn law_nobody_only_if_none_answers(
    before: NodeRouter,
    replies: Seq<StatusReply>,
    after: NodeRouter,
)
    requires
        replies.len() == before.nodes@.len(),
        rechecked(before, replies, after),
    ensures
        after.can_move_on(),
        after.execution_node() is None <==> forall|i: int|
            0 <= i < replies.len() ==> !answers(#[trigger] replies[i]),
{
    let nodes = checked_nodes(before.nodes@, replies);
    let results = check_results(before.nodes@, replies);
    assert(before.nodes.len() == before.nodes@.len());
    law_round_sets_statuses(before, replies, after);
    law_primary_after_round(before, replies, after);
    if after.alive_nodes@.len() > 0 {
        assert(after.alive_nodes@[0].status == ONLINE);
    } else if after.alive_but_syncing_nodes@.len() > 0 {
        assert(after.alive_but_syncing_nodes@[0].status == SYNCING);
    } else {
        assert forall|i: int| 0 <= i < replies.len() implies !answers(#[trigger] replies[i]) by {
            lemma_check(before.nodes@, replies, i);
            if says_in_sync(replies[i]) {
                let a = lemma_position_of_alive(after.alive_nodes@, nodes, results, i);
            } else if answers(replies[i]) {
                lemma_is_listed(nodes, results, Standing::Syncing, nodes.len(), i);
            }
        }
    }
}

} // verus!

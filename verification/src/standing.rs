//! The order that a round of status checks puts the nodes in.

use vstd::prelude::*;

use crate::node::{CheckAliveResult, CheckError, Node, OFFLINE, ONLINE, SYNCING};

verus! {

/// What a status check of a node came to.
pub type CheckResult = Result<CheckAliveResult, CheckError>;

/// Where a status check puts a node.
#[derive(Debug, Clone, Copy, PartialEq, Eq, Structural)]
pub enum Standing {
    /// The node answers and is in sync.
    Alive,
    /// The node answers and is syncing.
    Syncing,
    /// The node is of no use.
    Dead,
    /// The node has a status that no list is for.
    Unlisted,
}

/// The nodes by their standing, and the one to prefer.
#[derive(Debug)]
pub struct Standings {
    /// The nodes in sync, the fastest first.
    pub alive_nodes: Vec<Node>,
    /// The nodes of no use.
    pub dead_nodes: Vec<Node>,
    /// The nodes that are syncing.
    pub alive_but_syncing_nodes: Vec<Node>,
    /// The node to send requests to.
    pub primary_node: Option<Node>,
}

/// The standing that a check result gives a node.
pub open spec fn standing_of(result: CheckResult) -> Standing {
    match result {
        Err(_) => Standing::Dead,
        Ok(found) => if found.status == OFFLINE {
            Standing::Dead
        } else if found.status == ONLINE {
            Standing::Alive
        } else if found.status == SYNCING {
            Standing::Syncing
        } else {
            Standing::Unlisted
        },
    }
}

/// How long an answer took.
pub open spec fn time_of(result: CheckResult) -> u128 {
    match result {
        Err(_) => 0,
        Ok(found) => found.resp_time,
    }
}

/// Those of the first `n` nodes that have a standing, in their order.
pub open spec fn listed(
    nodes: Seq<Node>,
    results: Seq<CheckResult>,
    standing: Standing,
    n: nat,
) -> Seq<Node>
    decreases n,
{
    if n == 0 {
        Seq::empty()
    } else {
        let before = listed(nodes, results, standing, (n - 1) as nat);
        if standing_of(results[n - 1]) == standing {
            before.push(nodes[n - 1])
        } else {
            before
        }
    }
}

/// Whether one node comes before another: it answered faster, or as fast and is named earlier.
pub open spec fn ahead(results: Seq<CheckResult>, i: usize, j: usize) -> bool {
    ||| time_of(results[i as int]) < time_of(results[j as int])
    ||| time_of(results[i as int]) == time_of(results[j as int]) && i < j
}

/// Whether `order` names the alive ones of the first `n` nodes, each once, the fastest first.
pub open spec fn ranks_first(order: Seq<usize>, results: Seq<CheckResult>, n: int) -> bool {
    &&& forall|a: int|
        0 <= a < order.len() ==> (#[trigger] order[a]) < n && standing_of(results[order[a] as int])
            == Standing::Alive
    &&& forall|i: usize|
        i < n && #[trigger] standing_of(results[i as int]) == Standing::Alive ==> order.contains(i)
    &&& forall|a: int, b: int|
        0 <= a < b < order.len() ==> ahead(results, #[trigger] order[a], #[trigger] order[b])
}

/// Whether `order` names the alive nodes, each once, the fastest first.
pub open spec fn is_ranking(order: Seq<usize>, results: Seq<CheckResult>) -> bool {
    ranks_first(order, results, results.len() as int)
}

/// Whether `alive` are the alive ones of `nodes`, the fastest first.
pub open spec fn fastest_first(
    alive: Seq<Node>,
    nodes: Seq<Node>,
    results: Seq<CheckResult>,
) -> bool {
    exists|order: Seq<usize>|
        #[trigger] is_ranking(order, results) && alive == order.map_values(
            |i: usize| nodes[i as int],
        )
}

/// The node to prefer: the fastest alive node, else the first that is syncing.
pub open spec fn preferred(alive: Seq<Node>, syncing: Seq<Node>) -> Option<Node> {
    if alive.len() > 0 {
        Some(alive[0])
    } else if syncing.len() > 0 {
        Some(syncing[0])
    } else {
        None
    }
}

/// The node to prefer: the fastest alive node, else the first that is syncing.
pub fn prefer(alive: &Vec<Node>, syncing: &Vec<Node>) -> (r: Option<Node>)
    ensures
        r == preferred(alive@, syncing@),
{
    if alive.len() > 0 {
        Some(alive[0].clone())
    } else if syncing.len() > 0 {
        Some(syncing[0].clone())
    } else {
        None
    }
}

/// The standing that a check result gives a node.
pub fn standing(result: &CheckResult) -> (r: Standing)
    ensures
        r == standing_of(*result),
{
    match result {
        Err(_) => Standing::Dead,
        Ok(found) => if found.status == OFFLINE {
            Standing::Dead
        } else if found.status == ONLINE {
            Standing::Alive
        } else if found.status == SYNCING {
            Standing::Syncing
        } else {
            Standing::Unlisted
        },
    }
}

/// How long an answer took.
fn time(result: &CheckResult) -> (r: u128)
    ensures
        r == time_of(*result),
{
    match result {
        Err(_) => 0,
        Ok(found) => found.resp_time,
    }
}

/// Ranks the alive nodes by the time that their answers took. Of two that took the same time, the
/// one that is named earlier comes first.
pub fn rank_alive(results: &Vec<CheckResult>) -> (order: Vec<usize>)
    ensures
        is_ranking(order@, results@),
{
    let mut order: Vec<usize> = Vec::new();
    for i in 0..results.len()
        invariant
            ranks_first(order@, results@, i as int),
    {
        if standing(&results[i]) == Standing::Alive {
            let ghost before = order@;
            let mut p: usize = order.len();
            while p > 0 && time(&results[order[p - 1]]) > time(&results[i])
                invariant
                    p <= order.len(),
                    i < results.len(),
                    ranks_first(order@, results@, i as int),
                    forall|a: int|
                        p <= a < order.len() ==> time_of(results@[#[trigger] order@[a] as int])
                            > time_of(results@[i as int]),
                decreases p,
            {
                p -= 1;
            }
            order.insert(p, i);
            proof {
                lemma_insert_ranks(before, order@, results@, i, p as int);
            }
        } else {
            assert(forall|k: usize|
                k < i + 1 && #[trigger] standing_of(results@[k as int]) == Standing::Alive ==> k
                    < i);
        }
    }
    order
}

/// Putting node `i` at its place keeps a ranking of the first `i` nodes a ranking.
proof fn lemma_insert_ranks(
    before: Seq<usize>,
    after: Seq<usize>,
    results: Seq<CheckResult>,
    i: usize,
    p: int,
)
    requires
        0 <= p <= before.len(),
        after == before.insert(p, i),
        ranks_first(before, results, i as int),
        standing_of(results[i as int]) == Standing::Alive,
        forall|a: int|
            p <= a < before.len() ==> time_of(results[#[trigger] before[a] as int]) > time_of(
                results[i as int],
            ),
        forall|a: int|
            0 <= a < p ==> time_of(results[#[trigger] before[a] as int]) <= time_of(
                results[i as int],
            ),
    ensures
        ranks_first(after, results, i + 1),
{
    assert forall|k: usize|
        k < i + 1 && #[trigger] standing_of(results[k as int])
            == Standing::Alive implies after.contains(k) by {
        if k == i {
            assert(after[p] == i);
        } else {
            let a = choose|a: int| 0 <= a < before.len() && before[a] == k;
            if a < p {
                assert(after[a] == k);
            } else {
                assert(after[a + 1] == k);
            }
        }
    }
}

/// Sorts the nodes by what their status checks came to.
pub fn sort_out(nodes: &Vec<Node>, results: &Vec<CheckResult>) -> (r: Standings)
    requires
        nodes.len() == results.len(),
    ensures
        fastest_first(r.alive_nodes@, nodes@, results@),
        r.dead_nodes@ == listed(nodes@, results@, Standing::Dead, nodes@.len()),
        r.alive_but_syncing_nodes@ == listed(nodes@, results@, Standing::Syncing, nodes@.len()),
        r.primary_node == preferred(r.alive_nodes@, r.alive_but_syncing_nodes@),
{
    let mut dead_nodes: Vec<Node> = Vec::new();
    let mut alive_but_syncing_nodes: Vec<Node> = Vec::new();
    for i in 0..results.len()
        invariant
            nodes.len() == results.len(),
            dead_nodes@ == listed(nodes@, results@, Standing::Dead, i as nat),
            alive_but_syncing_nodes@ == listed(nodes@, results@, Standing::Syncing, i as nat),
    {
        match standing(&results[i]) {
            Standing::Dead => dead_nodes.push(nodes[i].clone()),
            Standing::Syncing => alive_but_syncing_nodes.push(nodes[i].clone()),
            _ => {},
        }
    }
    let order = rank_alive(results);
    let mut alive_nodes: Vec<Node> = Vec::new();
    for a in 0..order.len()
        invariant
            nodes.len() == results.len(),
            is_ranking(order@, results@),
            alive_nodes@ == order@.take(a as int).map_values(|i: usize| nodes@[i as int]),
    {
        alive_nodes.push(nodes[order[a]].clone());
    }
    assert(alive_nodes@ =~= order@.map_values(|i: usize| nodes@[i as int]));
    let primary_node = prefer(&alive_nodes, &alive_but_syncing_nodes);
    Standings { alive_nodes, dead_nodes, alive_but_syncing_nodes, primary_node }
}

/// Taking the last of `n` nodes out of a ranking leaves a ranking of the nodes before it.
proof fn lemma_remove_ranks(order: Seq<usize>, results: Seq<CheckResult>, n: int, p: int)
    requires
        0 < n <= usize::MAX,
        0 <= p < order.len(),
        order[p] == n - 1,
        ranks_first(order, results, n),
    ensures
        ranks_first(order.remove(p), results, n - 1),
{
    let rest = order.remove(p);
    assert forall|a: int| 0 <= a < rest.len() implies (#[trigger] rest[a]) < n - 1 && standing_of(
        results[rest[a] as int],
    ) == Standing::Alive by {
        if a < p {
            assert(rest[a] == order[a]);
            assert(ahead(results, order[a], order[p]));
        } else {
            assert(rest[a] == order[a + 1]);
            assert(ahead(results, order[p], order[a + 1]));
        }
    }
    assert forall|i: usize|
        i < n - 1 && #[trigger] standing_of(results[i as int])
            == Standing::Alive implies rest.contains(i) by {
        assert(order.contains(i));
        let a = choose|a: int| 0 <= a < order.len() && order[a] == i;
        if a < p {
            assert(rest[a] == i);
        } else {
            assert(rest[a - 1] == i);
        }
    }
    assert forall|a: int, b: int| 0 <= a < b < rest.len() implies ahead(
        results,
        #[trigger] rest[a],
        #[trigger] rest[b],
    ) by {
        let a0 = if a < p {
            a
        } else {
            a + 1
        };
        let b0 = if b < p {
            b
        } else {
            b + 1
        };
        assert(rest[a] == order[a0] && rest[b] == order[b0]);
    }
}

/// A ranking names the nodes that are listed as alive.
proof fn lemma_ranking_lists(
    order: Seq<usize>,
    nodes: Seq<Node>,
    results: Seq<CheckResult>,
    n: nat,
)
    requires
        n <= usize::MAX,
        ranks_first(order, results, n as int),
    ensures
        order.map_values(|i: usize| nodes[i as int]).to_multiset() == listed(
            nodes,
            results,
            Standing::Alive,
            n,
        ).to_multiset(),
    decreases n,
{
    broadcast use {vstd::seq_lib::group_to_multiset_ensures, vstd::multiset::group_multiset_axioms};

    let f = |i: usize| nodes[i as int];
    if n == 0 {
        assert(order.len() == 0) by {
            if order.len() > 0 {
                assert(order[0] < 0);
            }
        }
        assert(order.map_values(f) =~= Seq::empty());
    } else {
        let last = (n - 1) as usize;
        if standing_of(results[n - 1]) == Standing::Alive {
            assert(standing_of(results[last as int]) == Standing::Alive);
            let p = choose|p: int| 0 <= p < order.len() && order[p] == last;
            lemma_remove_ranks(order, results, n as int, p);
            lemma_ranking_lists(order.remove(p), nodes, results, (n - 1) as nat);
            assert(order.remove(p).map_values(f) =~= order.map_values(f).remove(p));
            let all = order.map_values(f);
            assert(all[p] == nodes[n - 1]);
            vstd::seq_lib::to_multiset_remove(all, p);
            assert(all.to_multiset().count(all[p]) > 0) by {
                assert(all.contains(all[p]));
            }
            assert(all.to_multiset() =~= all.to_multiset().remove(all[p]).insert(all[p]));
            let before = listed(nodes, results, Standing::Alive, (n - 1) as nat);
            assert(before.push(nodes[n - 1]).to_multiset() =~= before.to_multiset().insert(
                nodes[n - 1],
            ));
        } else {
            assert(ranks_first(order, results, n - 1)) by {
                assert forall|a: int| 0 <= a < order.len() implies (#[trigger] order[a]) < n - 1
                    && standing_of(results[order[a] as int]) == Standing::Alive by {
                    assert(order[a] < n);
                }
            }
            lemma_ranking_lists(order, nodes, results, (n - 1) as nat);
        }
    }
}

/// Each of the first `n` nodes is in exactly one list, if there is a list for it.
proof fn lemma_lists_partition(nodes: Seq<Node>, results: Seq<CheckResult>, n: nat)
    requires
        n <= nodes.len(),
        forall|i: int|
            0 <= i < n ==> #[trigger] standing_of(results[i]) != Standing::Unlisted,
    ensures
        listed(nodes, results, Standing::Alive, n).to_multiset().add(
            listed(nodes, results, Standing::Syncing, n).to_multiset(),
        ).add(listed(nodes, results, Standing::Dead, n).to_multiset()) == nodes.take(
            n as int,
        ).to_multiset(),
    decreases n,
{
    broadcast use {vstd::seq_lib::group_to_multiset_ensures, vstd::multiset::group_multiset_axioms};

    let alive = listed(nodes, results, Standing::Alive, n).to_multiset();
    let syncing = listed(nodes, results, Standing::Syncing, n).to_multiset();
    let dead = listed(nodes, results, Standing::Dead, n).to_multiset();
    if n == 0 {
        assert(nodes.take(0) =~= Seq::empty());
        assert(alive.add(syncing).add(dead) =~= nodes.take(0).to_multiset());
    } else {
        lemma_lists_partition(nodes, results, (n - 1) as nat);
        assert(nodes.take(n as int) =~= nodes.take(n - 1).push(nodes[n - 1]));
        assert(standing_of(results[n - 1]) != Standing::Unlisted);
        assert(alive.add(syncing).add(dead) =~= nodes.take(n as int).to_multiset());
    }
}

/// A node in a list has the standing that the list is for.
pub(crate) proof fn lemma_listed_standing(
    nodes: Seq<Node>,
    results: Seq<CheckResult>,
    standing: Standing,
    n: nat,
    k: int,
) -> (i: int)
    requires
        0 <= k < listed(nodes, results, standing, n).len(),
    ensures
        0 <= i < n,
        standing_of(results[i]) == standing,
        listed(nodes, results, standing, n)[k] == nodes[i],
    decreases n,
{
    let before = listed(nodes, results, standing, (n - 1) as nat);
    if k < before.len() {
        lemma_listed_standing(nodes, results, standing, (n - 1) as nat, k)
    } else {
        n - 1
    }
}

/// There is only one way to put the alive nodes in order.
pub proof fn law_one_ranking(first: Seq<usize>, second: Seq<usize>, results: Seq<CheckResult>)
    requires
        is_ranking(first, results),
        is_ranking(second, results),
    ensures
        first == second,
{
    lemma_rankings_agree(first, second, results, first.len() as int);
    lemma_rankings_agree(second, first, results, second.len() as int);
    assert(first.take(first.len() as int) =~= first);
    assert(second.take(second.len() as int) =~= second);
}

/// A round of checks leaves one list of alive nodes only: what the checks found decides it.
pub proof fn law_one_list_of_alive(
    first: Seq<Node>,
    second: Seq<Node>,
    nodes: Seq<Node>,
    results: Seq<CheckResult>,
)
    requires
        fastest_first(first, nodes, results),
        fastest_first(second, nodes, results),
    ensures
        first == second,
{
    let a = choose|order: Seq<usize>|
        #[trigger] is_ranking(order, results) && first == order.map_values(
            |i: usize| nodes[i as int],
        );
    let b = choose|order: Seq<usize>|
        #[trigger] is_ranking(order, results) && second == order.map_values(
            |i: usize| nodes[i as int],
        );
    law_one_ranking(a, b, results);
}

/// Two rankings have the same beginning.
proof fn lemma_rankings_agree(
    first: Seq<usize>,
    second: Seq<usize>,
    results: Seq<CheckResult>,
    k: int,
)
    requires
        is_ranking(first, results),
        is_ranking(second, results),
        0 <= k <= first.len(),
    ensures
        k <= second.len(),
        first.take(k) == second.take(k),
    decreases k,
{
    if k > 0 {
        lemma_rankings_agree(first, second, results, k - 1);
        let x = first[k - 1];
        assert(standing_of(results[x as int]) == Standing::Alive);
        assert(second.contains(x));
        let p = choose|p: int| 0 <= p < second.len() && second[p] == x;
        if p < k - 1 {
            assert(first.take(k - 1)[p] == second.take(k - 1)[p]);
            assert(ahead(results, first[p], first[k - 1]));
            assert(false);
        }
        let y = second[k - 1];
        assert(standing_of(results[y as int]) == Standing::Alive);
        assert(first.contains(y));
        let q = choose|q: int| 0 <= q < first.len() && first[q] == y;
        if q < k - 1 {
            assert(first.take(k - 1)[q] == second.take(k - 1)[q]);
            assert(ahead(results, second[q], second[k - 1]));
            assert(false);
        }
        if p > k - 1 && q > k - 1 {
            assert(ahead(results, second[k - 1], second[p]));
            assert(ahead(results, first[k - 1], first[q]));
            assert(false);
        }
        assert(first.take(k) =~= first.take(k - 1).push(x));
        assert(second.take(k) =~= second.take(k - 1).push(x));
    }
}

/// A round of checks loses no node and doubles none: if there is a list for each node, then the
/// alive, the syncing and the dead nodes are the nodes that were checked.
pub proof fn law_every_node_listed_once(
    alive: Seq<Node>,
    nodes: Seq<Node>,
    results: Seq<CheckResult>,
)
    requires
        nodes.len() == results.len() <= usize::MAX,
        fastest_first(alive, nodes, results),
        forall|i: int|
            0 <= i < results.len() ==> #[trigger] standing_of(results[i]) != Standing::Unlisted,
    ensures
        alive.to_multiset().add(
            listed(nodes, results, Standing::Syncing, nodes.len()).to_multiset(),
        ).add(listed(nodes, results, Standing::Dead, nodes.len()).to_multiset())
            == nodes.to_multiset(),
{
    let order = choose|order: Seq<usize>|
        #[trigger] is_ranking(order, results) && alive == order.map_values(
            |i: usize| nodes[i as int],
        );
    lemma_ranking_lists(order, nodes, results, nodes.len());
    lemma_lists_partition(nodes, results, nodes.len());
    assert(nodes.take(nodes.len() as int) =~= nodes);
}

} // verus!

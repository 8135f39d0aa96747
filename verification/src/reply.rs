//! Answers to a client.

use vstd::prelude::*;

verus! {

/// The body of an answer and its HTTP status.
pub type Reply = (String, u16);

/// The HTTP status of an answer that was put together from several nodes' answers.
pub const OK: u16 = 200;

/// The HTTP status of the answer to a request that is not JSON.
pub const BAD_REQUEST: u16 = 400;

/// The HTTP status of an answer that no node could give.
pub const FAILURE: u16 = 500;

/// What a node sent back: its answer, or why there was none.
pub type Outcome = Result<Reply, String>;

/// The bodies of the answers among what nodes sent back.
pub open spec fn bodies_of(outcomes: Seq<Outcome>) -> Seq<String>
    decreases outcomes.len(),
{
    if outcomes.len() == 0 {
        Seq::empty()
    } else {
        let before = bodies_of(outcomes.drop_last());
        match outcomes.last() {
            Ok(reply) => before.push(reply.0),
            Err(_) => before,
        }
    }
}

/// The bodies of the answers among what nodes sent back, in their order.
pub fn bodies(outcomes: &Vec<Outcome>) -> (r: Vec<String>)
    ensures
        r@ == bodies_of(outcomes@),
{
    let mut found: Vec<String> = Vec::new();
    for i in 0..outcomes.len()
        invariant
            found@ == bodies_of(outcomes@.take(i as int)),
    {
        assert(outcomes@.take(i + 1).drop_last() =~= outcomes@.take(i as int));
        match &outcomes[i] {
            Ok(reply) => found.push(reply.0.clone()),
            Err(_) => {},
        }
    }
    assert(outcomes@.take(outcomes@.len() as int) =~= outcomes@);
    found
}

/// A node that does not answer makes no difference to the answers of the others.
pub proof fn law_silent_node_does_not_count(
    before: Seq<Outcome>,
    complaint: String,
    behind: Seq<Outcome>,
)
    ensures
        bodies_of(before.push(Err(complaint)) + behind) == bodies_of(before + behind),
    decreases behind.len(),
{
    let with = before.push(Err(complaint)) + behind;
    let without = before + behind;
    if behind.len() == 0 {
        assert(with.drop_last() =~= without);
    } else {
        law_silent_node_does_not_count(before, complaint, behind.drop_last());
        assert(with.drop_last() =~= before.push(Err(complaint)) + behind.drop_last());
        assert(without.drop_last() =~= before + behind.drop_last());
    }
}

/// The answer to a request that went to one node: what the node answered, or why it did not.
pub fn forwarded(outcome: Outcome) -> (r: Reply)
    ensures
        match outcome {
            Ok(reply) => r == reply,
            Err(complaint) => r == (complaint, FAILURE),
        },
{
    match outcome {
        Ok(reply) => reply,
        Err(complaint) => (complaint, FAILURE),
    }
}

} // verus!

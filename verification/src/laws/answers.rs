//! How nodes' answers to a fork choice update or to a new payload become one answer.

use vstd::prelude::*;

use crate::forkchoice::{
    any_invalid, consensus_on, countable, fcu_consensus, fcu_judge, fcu_logic, fcu_majority,
    leader, lemma_leader, lemma_votes_count, majority, make_syncing_str, needs_verification,
    phrase, phrased, read_answer, reports_invalid, said, says_invalid, syncing_answer, votes,
    votes_answer, FcuAnswer, FcuAnswerView, FcuConsensus,
};
use crate::json::{contents, parsed_text, read, written_text, Json, JsonView};
use crate::laws::{holds, lacks, spoken};
use crate::reply::{bodies, bodies_of, forwarded, Outcome, Reply};
use crate::text::texts;

verus! {

/// Whether an answer is an object whose `result` is an object whose `payloadStatus` is an object
/// whose `status` is a value.
pub open spec fn has_status(answer: JsonView, status: JsonView) -> bool {
    exists|result: JsonView, payload_status: JsonView|
        #![trigger holds(answer, "result"@, result), holds(result, "payloadStatus"@, payload_status)]
        holds(answer, "result"@, result) && holds(result, "payloadStatus"@, payload_status) && holds(
            payload_status,
            "status"@,
            status,
        )
}

/// Whether an answer calls the payload invalid.
pub open spec fn is_invalid(answer: JsonView) -> bool {
    has_status(answer, JsonView::Str("INVALID"@))
}

/// Whether a text is an answer that calls the payload invalid.
pub open spec fn reads_invalid(text: Seq<char>) -> bool {
    text.len() > 0 && (parsed_text(text) matches Some(answer) && is_invalid(answer))
}

/// Whether the answer at a position was given more often than those before it, and no less often
/// than any other.
pub open spec fn leads(given: Seq<Seq<char>>, k: int) -> bool {
    &&& 0 <= k < given.len()
    &&& forall|j: int|
        0 <= j < given.len() ==> given.to_multiset().count(#[trigger] given[j])
            <= given.to_multiset().count(given[k])
    &&& forall|j: int|
        0 <= j < k ==> given.to_multiset().count(#[trigger] given[j]) < given.to_multiset().count(
            given[k],
        )
}

/// What the first parameter of a request is.
pub open spec fn first_parameter(request: JsonView) -> JsonView {
    match request {
        JsonView::Object(members) if members.dom().contains("params"@) => match members["params"@] {
            JsonView::Array(items) if items.len() > 0 => items[0],
            _ => JsonView::Null,
        },
        _ => JsonView::Null,
    }
}

/// An answer calls the payload invalid by its status alone, whatever else stands beside it: it does
/// if the status is the string `INVALID`, and does not if it is anything else or missing.
pub proof fn law_status_alone_is_invalid(answer: &Json, r: bool)
    requires
        call_ensures(reports_invalid, (answer,), r),
    ensures
        r <==> is_invalid(answer@),
        says_invalid(answer@) == r,
{
    lemma_says_invalid(answer@);
}

/// An answer with the status `INVALID` calls the payload invalid with any members beside it.
pub proof fn law_invalid_with_any_members(
    members: Map<Seq<char>, JsonView>,
    result: Map<Seq<char>, JsonView>,
    payload_status: Map<Seq<char>, JsonView>,
)
    requires
        members.dom().contains("result"@),
        members["result"@] == JsonView::Object(result),
        result.dom().contains("payloadStatus"@),
        result["payloadStatus"@] == JsonView::Object(payload_status),
        payload_status.dom().contains("status"@),
    ensures
        says_invalid(JsonView::Object(members)) <==> payload_status["status"@] == JsonView::Str(
            "INVALID"@,
        ),
{
}

/// An answer calls the payload invalid by its status.
proof fn lemma_says_invalid(answer: JsonView)
    ensures
        says_invalid(answer) == is_invalid(answer),
{
    if says_invalid(answer) {
        let result = answer.member("result"@);
        let payload_status = result.member("payloadStatus"@);
        assert(holds(answer, "result"@, result));
        assert(holds(result, "payloadStatus"@, payload_status));
        assert(holds(payload_status, "status"@, JsonView::Str("INVALID"@)));
    }
}

/// A text calls the payload invalid by the status in it.
proof fn lemma_reads_invalid(text: Seq<char>)
    ensures
        reads_invalid(text) == (read_answer(text) matches Some(answer) && says_invalid(answer)),
{
    if parsed_text(text) is Some {
        lemma_says_invalid(parsed_text(text)->0);
    }
}

/// The texts of strings are what they hold.
proof fn lemma_spoken(strings: Seq<String>)
    ensures
        texts(strings) == spoken(strings),
{
    assert(texts(strings) =~= spoken(strings));
}

/// The answers that lead are the ones that the count finds.
proof fn lemma_leads(given: Seq<Seq<char>>, k: int, majority_count: u16)
    requires
        leads(given, k),
    ensures
        majority(given, majority_count) == if given.to_multiset().count(given[k])
            >= majority_count {
            Some(given[k])
        } else {
            None
        },
{
    let n = given.len() as int;
    lemma_leader(given, n);
    let l = leader(given, n);
    lemma_votes_count(given, given[k]);
    lemma_votes_count(given, given[l]);
    assert(votes(given, given[k]) <= votes(given, given[l]));
    assert(given.to_multiset().count(given[l]) <= given.to_multiset().count(given[k]));
    if l < k {
        assert(given.to_multiset().count(given[l]) < given.to_multiset().count(given[k]));
    }
    if k < l {
        assert(votes(given, given[k]) < votes(given, given[l]));
    }
}

/// There is always an answer that leads.
proof fn lemma_some_leads(given: Seq<Seq<char>>) -> (k: int)
    requires
        given.len() > 0,
    ensures
        leads(given, k),
{
    let n = given.len() as int;
    lemma_leader(given, n);
    let k = leader(given, n);
    lemma_votes_count(given, given[k]);
    assert forall|j: int| 0 <= j < given.len() implies given.to_multiset().count(
        #[trigger] given[j],
    ) <= given.to_multiset().count(given[k]) by {
        lemma_votes_count(given, given[j]);
        assert(votes(given, given[j]) <= votes(given, given[k]));
    }
    assert forall|j: int| 0 <= j < k implies given.to_multiset().count(#[trigger] given[j])
        < given.to_multiset().count(given[k]) by {
        lemma_votes_count(given, given[j]);
        assert(votes(given, given[j]) < votes(given, given[k]));
    }
    k
}

/// The majority is the answer that was given most often, the earliest among equals, if it was given
/// at least `majority_count` times. Of no answers at all, it is the empty text where nobody needs to
/// agree.
pub proof fn law_majority_leads(
    results: &Vec<String>,
    majority_count: u16,
    r: Option<String>,
    k: int,
)
    requires
        call_ensures(fcu_majority, (results, majority_count), r),
    ensures
        leads(spoken(results@), k) ==> (r is Some <==> spoken(results@).to_multiset().count(
            results@[k]@,
        ) >= majority_count),
        leads(spoken(results@), k) ==> (r matches Some(text) ==> text@ == results@[k]@),
        results@.len() == 0 ==> (r is Some <==> majority_count == 0),
        results@.len() == 0 ==> (r matches Some(text) ==> text@.len() == 0),
{
    lemma_spoken(results@);
    if leads(spoken(results@), k) {
        lemma_leads(spoken(results@), k, majority_count);
    }
}

/// What up to 65535 nodes answer can be counted.
pub proof fn law_answers_can_be_counted(given: Seq<Seq<char>>)
    requires
        given.len() <= 65535,
    ensures
        countable(given),
{
}

/// A majority is judged by what it and the answers were read as: it is unclear if it is not JSON,
/// invalid if it calls the payload so, unclear if it does not and an answer does, and settled
/// otherwise.
pub proof fn law_majority_is_judged(
    top: String,
    reading: &Option<Json>,
    given: &Vec<Option<Json>>,
    r: FcuConsensus,
)
    requires
        call_ensures(fcu_judge, (top, reading, given), r),
    ensures
        reading is None ==> r is Unclear,
        (*reading matches Some(answer) && is_invalid(answer@)) ==> (r matches FcuConsensus::Invalid {
            body,
        } && body@ == top@),
        (*reading matches Some(answer) && !is_invalid(answer@)) ==> {
            &&& (exists|i: int|
                0 <= i < given@.len() && ((#[trigger] given@[i]) matches Some(other) && is_invalid(
                    other@,
                ))) ==> r is Unclear
            &&& (forall|i: int|
                0 <= i < given@.len() ==> !((#[trigger] given@[i]) matches Some(other) && is_invalid(
                    other@,
                ))) ==> (r matches FcuConsensus::Settled { body } && body@ == top@)
        },
{
    let read = contents(given@);
    if let Some(answer) = *reading {
        lemma_says_invalid(answer@);
    }
    assert forall|i: int| 0 <= i < read.len() implies (((#[trigger] read[i]) matches Some(other)
        && says_invalid(other)) <==> (given@[i] matches Some(other) && is_invalid(other@))) by {
        if let Some(other) = given@[i] {
            lemma_says_invalid(other@);
        }
    }
    if exists|i: int|
        0 <= i < given@.len() && ((#[trigger] given@[i]) matches Some(other) && is_invalid(other@)) {
        let i = choose|i: int|
            0 <= i < given@.len() && ((#[trigger] given@[i]) matches Some(other) && is_invalid(
                other@,
            ));
        assert(read[i] is Some);
        assert(any_invalid(read));
    }
}

/// A judgement is phrased as what it passes on: an invalid majority alone, a settled one to be shared.
pub proof fn law_judgement_is_phrased(
    consensus: FcuConsensus,
    request: &Option<Json>,
    r: Option<FcuAnswer>,
)
    requires
        call_ensures(phrase, (consensus, request), r),
    ensures
        consensus matches FcuConsensus::Invalid { body: top } ==> (r matches Some(FcuAnswer::Reply {
            body,
        }) && body@ == top@),
        consensus matches FcuConsensus::Settled { body: top } ==> (r matches Some(
            FcuAnswer::ReplyAndShare { body },
        ) && body@ == top@),
        !(consensus is Invalid) && !(consensus is Settled) && r is Some ==> r->0 is Syncing,
        !(consensus is Invalid) && !(consensus is Settled) && request is None ==> r is None,
{
}

/// What the majority says is passed on and shared if it is JSON and no node calls the payload
/// invalid, itself included.
pub proof fn law_settled_majority_is_shared(
    resps: &Vec<String>,
    majority_count: u16,
    req: &str,
    r: Option<FcuAnswer>,
    k: int,
)
    requires
        call_ensures(fcu_logic, (resps, majority_count, req), r),
        leads(spoken(resps@), k),
        spoken(resps@).to_multiset().count(resps@[k]@) >= majority_count,
        parsed_text(resps@[k]@) is Some,
        !is_invalid(parsed_text(resps@[k]@)->0),
        forall|i: int| 0 <= i < resps@.len() ==> !reads_invalid(#[trigger] resps@[i]@),
    ensures
        r matches Some(FcuAnswer::ReplyAndShare { body }) && body@ == resps@[k]@,
{
    let given = spoken(resps@);
    lemma_spoken(resps@);
    lemma_leads(given, k, majority_count);
    lemma_says_invalid(parsed_text(given[k])->0);
    let read = given.map_values(|text: Seq<char>| read_answer(text));
    assert forall|i: int| 0 <= i < read.len() implies !((#[trigger] read[i]) matches Some(answer)
        && says_invalid(answer)) by {
        lemma_reads_invalid(given[i]);
        assert(!reads_invalid(resps@[i]@));
    }
}

/// A majority that calls the payload invalid is passed on, and not shared.
pub proof fn law_invalid_majority_is_passed_on(
    resps: &Vec<String>,
    majority_count: u16,
    req: &str,
    r: Option<FcuAnswer>,
    k: int,
)
    requires
        call_ensures(fcu_logic, (resps, majority_count, req), r),
        leads(spoken(resps@), k),
        spoken(resps@).to_multiset().count(resps@[k]@) >= majority_count,
        parsed_text(resps@[k]@) is Some,
        is_invalid(parsed_text(resps@[k]@)->0),
    ensures
        r matches Some(FcuAnswer::Reply { body }) && body@ == resps@[k]@,
{
    lemma_spoken(resps@);
    lemma_leads(spoken(resps@), k, majority_count);
    lemma_says_invalid(parsed_text(resps@[k]@)->0);
}

/// Once a node calls the payload invalid, what is passed on calls it invalid too, and nothing is
/// shared.
pub proof fn law_invalid_answer_is_heeded(
    resps: &Vec<String>,
    majority_count: u16,
    req: &str,
    r: Option<FcuAnswer>,
    i: int,
)
    requires
        call_ensures(fcu_logic, (resps, majority_count, req), r),
        0 <= i < resps@.len(),
        reads_invalid(resps@[i]@),
    ensures
        !(r matches Some(FcuAnswer::ReplyAndShare { .. })),
        r matches Some(FcuAnswer::Reply { body }) ==> (parsed_text(body@) matches Some(answer)
            && is_invalid(answer)),
{
    lemma_heeded(spoken(resps@), majority_count, parsed_text(req@), i);
    lemma_spoken(resps@);
}

/// An answer that calls the payload invalid keeps others from being passed on.
proof fn lemma_heeded(
    given: Seq<Seq<char>>,
    majority_count: u16,
    request: Option<JsonView>,
    i: int,
)
    requires
        0 <= i < given.len(),
        reads_invalid(given[i]),
    ensures
        match phrased(consensus_on(given, majority_count), request) {
            Some(FcuAnswerView::Reply { body }) => parsed_text(body) matches Some(answer)
                && is_invalid(answer),
            Some(FcuAnswerView::ReplyAndShare { body }) => false,
            _ => true,
        },
{
    lemma_reads_invalid(given[i]);
    let read = given.map_values(|text: Seq<char>| read_answer(text));
    assert(read[i] == read_answer(given[i]));
    assert(any_invalid(read));
    if majority(given, majority_count) is Some {
        let top = majority(given, majority_count)->0;
        if parsed_text(top) is Some {
            lemma_says_invalid(parsed_text(top)->0);
        }
    }
}

/// The same of what nodes sent back: once a node answers that the payload is invalid, what is passed
/// on calls it invalid too, and nothing is shared.
pub proof fn law_invalid_outcome_is_heeded(
    outcomes: &Vec<Outcome>,
    majority_count: u16,
    data: &str,
    r: Option<FcuAnswer>,
    i: int,
)
    requires
        call_ensures(votes_answer, (outcomes, majority_count, data), r),
        0 <= i < outcomes@.len(),
        outcomes@[i] matches Ok(reply) && reads_invalid(reply.0@),
    ensures
        !(r matches Some(FcuAnswer::ReplyAndShare { .. })),
        r matches Some(FcuAnswer::Reply { body }) ==> (parsed_text(body@) matches Some(answer)
            && is_invalid(answer)),
{
    let b = lemma_body_of(outcomes@, i);
    lemma_heeded(spoken(bodies_of(outcomes@)), majority_count, parsed_text(data@), b);
    lemma_spoken(bodies_of(outcomes@));
}

/// What nodes sent back is settled as their answers are, in their order: silent nodes do not count.
pub proof fn law_outcomes_are_settled_as_answers(
    outcomes: &Vec<Outcome>,
    majority_count: u16,
    data: &str,
    r: Option<FcuAnswer>,
    resps: &Vec<String>,
    s: Option<FcuAnswer>,
)
    requires
        call_ensures(votes_answer, (outcomes, majority_count, data), r),
        call_ensures(bodies, (outcomes,), *resps),
        call_ensures(fcu_logic, (resps, majority_count, data), s),
    ensures
        said(r) == said(s),
{
}

/// What is answered is what the answers come to, phrased for the request.
pub proof fn law_consensus_is_phrased(
    resps: &Vec<String>,
    majority_count: u16,
    req: &str,
    r: Option<FcuAnswer>,
    consensus: FcuConsensus,
    request: &Option<Json>,
    s: Option<FcuAnswer>,
)
    requires
        call_ensures(fcu_logic, (resps, majority_count, req), r),
        call_ensures(fcu_consensus, (resps, majority_count), consensus),
        call_ensures(read, (req,), *request),
        call_ensures(phrase, (consensus, request), s),
    ensures
        said(r) == said(s),
{
}

/// Without a majority the payload is said to be syncing once the method of the request and its first
/// parameter went through verification. There is no answer if the request is not JSON or if its
/// method is no string.
pub proof fn law_no_majority_is_syncing(
    resps: &Vec<String>,
    majority_count: u16,
    req: &str,
    r: Option<FcuAnswer>,
)
    requires
        call_ensures(fcu_logic, (resps, majority_count, req), r),
        forall|i: int|
            0 <= i < resps@.len() ==> spoken(resps@).to_multiset().count(#[trigger] resps@[i]@)
                < majority_count,
    ensures
        parsed_text(req@) is None ==> r is None,
        forall|request: JsonView, method: Seq<char>|
            #![trigger holds(request, "method"@, JsonView::Str(method))]
            parsed_text(req@) == Some(request) && holds(request, "method"@, JsonView::Str(method))
                ==> (r matches Some(FcuAnswer::Syncing { method: m, payload }) && m@ == method
                && payload@ == first_parameter(request)),
        forall|request: JsonView|
            #![trigger lacks(request, "method"@)]
            parsed_text(req@) == Some(request) && lacks(request, "method"@) ==> r is None,
        forall|request: JsonView, method: JsonView|
            #![trigger holds(request, "method"@, method)]
            parsed_text(req@) == Some(request) && holds(request, "method"@, method) && !(
            method is Str) ==> r is None,
{
    let given = spoken(resps@);
    lemma_spoken(resps@);
    if given.len() > 0 {
        let k = lemma_some_leads(given);
        lemma_leads(given, k, majority_count);
        assert(given.to_multiset().count(resps@[k]@) < majority_count);
    }
    assert(consensus_on(given, majority_count) is NoMajority);
}

/// A majority that is not JSON, or that stands against a node which calls the payload invalid, leads
/// to the payload being said to be syncing: the method goes through verification as JSON writes it,
/// with the first parameter. There is no answer if the request is not JSON.
pub proof fn law_unclear_majority_is_syncing(
    resps: &Vec<String>,
    majority_count: u16,
    req: &str,
    r: Option<FcuAnswer>,
    k: int,
    i: int,
)
    requires
        call_ensures(fcu_logic, (resps, majority_count, req), r),
        leads(spoken(resps@), k),
        spoken(resps@).to_multiset().count(resps@[k]@) >= majority_count,
        0 <= i < resps@.len(),
        parsed_text(resps@[k]@) is None || (!is_invalid(parsed_text(resps@[k]@)->0)
            && reads_invalid(resps@[i]@)),
    ensures
        parsed_text(req@) is None ==> r is None,
        forall|request: JsonView, method: JsonView|
            #![trigger holds(request, "method"@, method)]
            parsed_text(req@) == Some(request) && holds(request, "method"@, method) ==> (r matches Some(
                FcuAnswer::Syncing { method: m, payload },
            ) && m@ == written_text(method) && payload@ == first_parameter(request)),
        forall|request: JsonView|
            #![trigger lacks(request, "method"@)]
            parsed_text(req@) == Some(request) && lacks(request, "method"@) ==> (r matches Some(
                FcuAnswer::Syncing { method: m, payload },
            ) && m@ == written_text(JsonView::Null) && payload@ == first_parameter(request)),
{
    let given = spoken(resps@);
    lemma_spoken(resps@);
    lemma_leads(given, k, majority_count);
    let read = given.map_values(|text: Seq<char>| read_answer(text));
    if parsed_text(given[k]) is Some {
        lemma_says_invalid(parsed_text(given[k])->0);
        lemma_reads_invalid(given[i]);
        assert(read[i] == read_answer(given[i]));
        assert(any_invalid(read));
    }
    assert(consensus_on(given, majority_count) is Unclear);
}

/// Only the payload of one method is verified.
pub proof fn law_one_method_is_verified(method: &str, r: bool)
    requires
        call_ensures(needs_verification, (method,), r),
    ensures
        r <==> method@ == "engine_newPayloadV1"@,
{
}

/// Whether a text is JSON that says that the payload is being synced, under the number of the
/// request, with no member besides.
pub open spec fn says_syncing(text: Seq<char>, id: u64) -> bool {
    exists|answer: JsonView, result: JsonView, status: JsonView|
        #![trigger holds(answer, "result"@, result), holds(result, "payloadStatus"@, status)]
        {
            &&& parsed_text(text) == Some(answer)
            &&& answer matches JsonView::Object(members)
            &&& members.dom() == set!["jsonrpc"@, "id"@, "result"@, "payloadId"@]
            &&& holds(answer, "jsonrpc"@, JsonView::Str("2.0"@))
            &&& holds(answer, "id"@, JsonView::Integer(id as int))
            &&& holds(answer, "payloadId"@, JsonView::Null)
            &&& holds(answer, "result"@, result)
            &&& result matches JsonView::Object(members)
            &&& members.dom() == set!["payloadStatus"@]
            &&& holds(result, "payloadStatus"@, status)
            &&& status matches JsonView::Object(members)
            &&& members.dom() == set!["status"@, "latestValidHash"@, "validationError"@]
            &&& holds(status, "status"@, JsonView::Str("SYNCING"@))
            &&& holds(status, "latestValidHash"@, JsonView::Null)
            &&& holds(status, "validationError"@, JsonView::Null)
        }
}

/// The answer that a payload is being synced says so.
proof fn lemma_says_syncing(text: Seq<char>, id: u64)
    requires
        parsed_text(text) == Some(syncing_answer(id)),
    ensures
        says_syncing(text, id),
{
    reveal_strlit("jsonrpc");
    reveal_strlit("id");
    reveal_strlit("result");
    reveal_strlit("payloadId");
    reveal_strlit("status");
    reveal_strlit("latestValidHash");
    reveal_strlit("validationError");
    assert("jsonrpc"@.len() == 7 && "id"@.len() == 2 && "result"@.len() == 6 && "payloadId"@.len()
        == 9);
    assert("status"@.len() == 6 && "latestValidHash"@.len() == 15);
    assert("latestValidHash"@[0] != "validationError"@[0]);
    let answer = syncing_answer(id);
    let result = answer.member("result"@);
    let status = result.member("payloadStatus"@);
    assert(answer->Object_0.dom() =~= set!["jsonrpc"@, "id"@, "result"@, "payloadId"@]);
    assert(result->Object_0.dom() =~= set!["payloadStatus"@]);
    assert(status->Object_0.dom() =~= set!["status"@, "latestValidHash"@, "validationError"@]);
    assert(holds(answer, "result"@, result) && holds(result, "payloadStatus"@, status));
}

/// Where the nodes settled nothing, the client is told that the payload is being synced, unless the
/// one method that asks for it failed its verification: then it is told why.
pub proof fn law_unsettled_is_told(
    id: &u64,
    method: &str,
    verification: Result<(), String>,
    r: String,
)
    requires
        call_ensures(make_syncing_str, (id, method, verification), r),
    ensures
        method@ == "engine_newPayloadV1"@ ==> (verification matches Err(complaint) ==> r@
            == complaint@),
        method@ != "engine_newPayloadV1"@ || verification is Ok ==> says_syncing(r@, *id),
{
    if method@ != "engine_newPayloadV1"@ || verification is Ok {
        lemma_says_syncing(r@, *id);
    }
}

/// The client gets what the nodes agree on as they said it, and is told of a sync otherwise, always
/// as a success. The request goes on to the syncing nodes only with an answer that is to be shared.
pub proof fn law_answer_is_told(
    answer: FcuAnswer,
    id: &u64,
    verification: Result<(), String>,
    r: (Reply, bool),
)
    requires
        call_ensures(FcuAnswer::into_reply, (answer, id, verification), r),
    ensures
        r.0.1 == 200,
        r.1 <==> answer is ReplyAndShare,
        answer matches FcuAnswer::Reply { body } ==> r.0.0@ == body@,
        answer matches FcuAnswer::ReplyAndShare { body } ==> r.0.0@ == body@,
        answer matches FcuAnswer::Syncing { method, .. } ==> (method@ == "engine_newPayloadV1"@ ==> (
        verification matches Err(complaint) ==> r.0.0@ == complaint@)),
        answer matches FcuAnswer::Syncing { method, .. } ==> (method@ != "engine_newPayloadV1"@
            || verification is Ok ==> says_syncing(r.0.0@, *id)),
{
    if let FcuAnswer::Syncing { method, .. } = answer {
        if method@ != "engine_newPayloadV1"@ || verification is Ok {
            lemma_says_syncing(r.0.0@, *id);
        }
    }
}

/// What one node sent back is passed on as it is, with the status that it came with; why it sent
/// nothing is told as a failure.
pub proof fn law_one_outcome_is_passed_on(outcome: Outcome, r: Reply)
    requires
        call_ensures(forwarded, (outcome,), r),
    ensures
        outcome matches Ok(reply) ==> r.0@ == reply.0@ && r.1 == reply.1,
        outcome matches Err(complaint) ==> r.0@ == complaint@ && r.1 == 500,
{
}

/// The answer of a node that sent one back is among the answers.
pub(crate) proof fn lemma_body_of(outcomes: Seq<Outcome>, i: int) -> (b: int)
    requires
        0 <= i < outcomes.len(),
        outcomes[i] is Ok,
    ensures
        0 <= b < bodies_of(outcomes).len(),
        bodies_of(outcomes)[b] == outcomes[i]->Ok_0.0,
    decreases outcomes.len(),
{
    if i < outcomes.len() - 1 {
        lemma_body_of(outcomes.drop_last(), i)
    } else {
        bodies_of(outcomes).len() - 1
    }
}

/// What several nodes sent back holds the answers of the first ones, then those of the others.
pub proof fn law_bodies_join(first: Seq<Outcome>, second: Seq<Outcome>)
    ensures
        bodies_of(first + second) == bodies_of(first) + bodies_of(second),
    decreases second.len(),
{
    if second.len() == 0 {
        assert(first + second =~= first);
        assert(bodies_of(first) + bodies_of(second) =~= bodies_of(first));
    } else {
        law_bodies_join(first, second.drop_last());
        assert((first + second).drop_last() =~= first + second.drop_last());
        assert(bodies_of(first + second) =~= bodies_of(first) + bodies_of(second));
    }
}

/// A node's answer counts with any status, and why a node sent nothing never does.
pub proof fn law_body_of_one_node(outcomes: &Vec<Outcome>, r: Vec<String>)
    requires
        call_ensures(bodies, (outcomes,), r),
        outcomes@.len() == 1,
    ensures
        outcomes@[0] matches Ok(reply) ==> r@ == seq![reply.0],
        outcomes@[0] is Err ==> r@.len() == 0,
{
    reveal_with_fuel(bodies_of, 2);
    assert(bodies_of(outcomes@.drop_last()) =~= Seq::empty());
}

} // verus!

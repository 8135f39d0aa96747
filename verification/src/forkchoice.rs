//! How the answers of several nodes to a fork choice update or to a new payload become one answer.

use vstd::prelude::*;

use crate::json::{
    content, contents, copy_of, element, is_text, lemma_short_key, member, members_of, parsed_text,
    read, text_for, text_of, written_text, Json, JsonView,
};
use crate::reply::{bodies, bodies_of, Outcome, Reply, OK};
use crate::text::{same_text, texts};

verus! {

/// The method whose payload is verified before the client is told that it is being synced.
pub const VERIFIED_METHOD: &'static str = "engine_newPayloadV1";

/// How many of the answers are a given text.
pub open spec fn votes(answers: Seq<Seq<char>>, text: Seq<char>) -> nat
    decreases answers.len(),
{
    if answers.len() == 0 {
        0
    } else {
        votes(answers.drop_last(), text) + if answers.last() == text {
            1nat
        } else {
            0nat
        }
    }
}

/// Of the first `n` answers, the position of the one that the most answers agree with. Among equals
/// the earliest counts.
pub open spec fn leader(answers: Seq<Seq<char>>, n: int) -> int
    decreases n,
{
    if n <= 1 {
        0
    } else {
        let best = leader(answers, n - 1);
        if votes(answers, answers[n - 1]) > votes(answers, answers[best]) {
            n - 1
        } else {
            best
        }
    }
}

/// The answer that the most nodes gave, if at least `majority_count` nodes gave it. Where there are
/// no answers it is the empty text, which nobody gave.
pub open spec fn majority(answers: Seq<Seq<char>>, majority_count: u16) -> Option<Seq<char>> {
    if answers.len() == 0 {
        if majority_count == 0 {
            Some(Seq::empty())
        } else {
            None
        }
    } else {
        let top = answers[leader(answers, answers.len() as int)];
        if votes(answers, top) >= majority_count {
            Some(top)
        } else {
            None
        }
    }
}

/// No text was answered so often that the count does not fit.
pub open spec fn countable(answers: Seq<Seq<char>>) -> bool {
    ||| answers.len() <= u16::MAX
    ||| forall|k: int| 0 <= k < answers.len() ==> votes(answers, #[trigger] answers[k]) <= u16::MAX
}

/// No more answers agree than there are.
proof fn lemma_votes_bounded(answers: Seq<Seq<char>>, text: Seq<char>)
    ensures
        votes(answers, text) <= answers.len(),
    decreases answers.len(),
{
    if answers.len() > 0 {
        lemma_votes_bounded(answers.drop_last(), text);
    }
}

/// The answers in a beginning are answers of the whole.
proof fn lemma_votes_of_prefix(answers: Seq<Seq<char>>, text: Seq<char>, n: int)
    requires
        0 <= n <= answers.len(),
    ensures
        votes(answers.take(n), text) <= votes(answers, text),
    decreases answers.len() - n,
{
    if n < answers.len() {
        lemma_votes_of_prefix(answers, text, n + 1);
        assert(answers.take(n + 1).drop_last() =~= answers.take(n));
    } else {
        assert(answers.take(n) =~= answers);
    }
}

/// Counts the answers that are the same as the one at a position.
fn count_votes(results: &Vec<String>, k: usize) -> (r: u16)
    requires
        k < results.len(),
        countable(texts(results@)),
    ensures
        r == votes(texts(results@), texts(results@)[k as int]),
{
    let ghost answers = texts(results@);
    let ghost text = answers[k as int];
    let mut count: u16 = 0;
    for i in 0..results.len()
        invariant
            k < results.len(),
            answers == texts(results@),
            text == answers[k as int],
            countable(answers),
            count == votes(answers.take(i as int), text),
    {
        proof {
            assert(answers.take(i + 1).drop_last() =~= answers.take(i as int));
            lemma_votes_of_prefix(answers, text, i + 1);
            lemma_votes_bounded(answers, text);
            assert(votes(answers, answers[k as int]) <= u16::MAX);
        }
        if results[i] == results[k] {
            count += 1;
        }
    }
    assert(answers.take(answers.len() as int) =~= answers);
    count
}

/// The answer that the most nodes gave, if at least `majority_count` nodes gave it.
pub fn fcu_majority(results: &Vec<String>, majority_count: u16) -> (r: Option<String>)
    requires
        countable(texts(results@)),
    ensures
        match r {
            Some(text) => majority(texts(results@), majority_count) == Some(text@),
            None => majority(texts(results@), majority_count) is None,
        },
{
    let ghost answers = texts(results@);
    let mut maxcount: u16 = 0;
    let mut best: usize = 0;
    for i in 0..results.len()
        invariant
            answers == texts(results@),
            countable(answers),
            i > 0 ==> best < i && best == leader(answers, i as int) && maxcount == votes(
                answers,
                answers[best as int],
            ),
            i == 0 ==> maxcount == 0,
    {
        let count = count_votes(results, i);
        proof {
            lemma_own_vote(answers, i as int);
        }
        if count > maxcount {
            maxcount = count;
            best = i;
        }
    }
    if maxcount >= majority_count {
        if results.len() == 0 {
            Some(String::new())
        } else {
            Some(results[best].clone())
        }
    } else {
        None
    }
}

/// An answer that was given was given at least once.
proof fn lemma_own_vote(answers: Seq<Seq<char>>, k: int)
    requires
        0 <= k < answers.len(),
    ensures
        votes(answers, answers[k]) >= 1,
    decreases answers.len(),
{
    if k < answers.len() - 1 {
        lemma_own_vote(answers.drop_last(), k);
    }
}

/// Whether a method's payload is verified before the answer that it is being synced.
pub open spec fn needs_verification_of(method: Seq<char>) -> bool {
    method == VERIFIED_METHOD@
}

/// Whether a method's payload is verified before the answer that it is being synced.
pub fn needs_verification(method: &str) -> (r: bool)
    ensures
        r == needs_verification_of(method@),
{
    same_text(method, VERIFIED_METHOD)
}

/// The answer that a payload is being synced.
pub open spec fn syncing_answer(id: u64) -> JsonView {
    JsonView::Object(
        map![
            "jsonrpc"@ => JsonView::Str("2.0"@),
            "id"@ => JsonView::Integer(id as int),
            "result"@ => JsonView::Object(map![
                "payloadStatus"@ => JsonView::Object(map![
                    "status"@ => JsonView::Str("SYNCING"@),
                    "latestValidHash"@ => JsonView::Null,
                    "validationError"@ => JsonView::Null,
                ]),
            ]),
            "payloadId"@ => JsonView::Null,
        ],
    )
}

/// Whether a text is the answer that a payload is being synced, and can be read as such.
pub open spec fn is_syncing_text(text: Seq<char>, id: u64) -> bool {
    &&& text == written_text(syncing_answer(id))
    &&& parsed_text(text) == Some(syncing_answer(id))
}

/// Whether a text is what is answered to a request that the nodes did not settle: the complaint of
/// a verification that the method asks for, or that the payload is being synced.
pub open spec fn answers_unsettled(
    text: Seq<char>,
    id: u64,
    method: Seq<char>,
    verification: Result<(), String>,
) -> bool {
    match verification {
        Err(complaint) if needs_verification_of(method) => text == complaint@,
        _ => is_syncing_text(text, id),
    }
}

/// The answer that a payload is being synced can be read back.
proof fn lemma_syncing_answer_plain(id: u64)
    ensures
        syncing_answer(id).plain_within(127),
{
    reveal_with_fuel(JsonView::plain_within, 5);
    reveal_strlit("jsonrpc");
    reveal_strlit("id");
    reveal_strlit("result");
    reveal_strlit("payloadId");
    reveal_strlit("payloadStatus");
    reveal_strlit("status");
    reveal_strlit("latestValidHash");
    reveal_strlit("validationError");
    lemma_short_key("jsonrpc"@);
    lemma_short_key("id"@);
    lemma_short_key("result"@);
    lemma_short_key("payloadId"@);
    lemma_short_key("payloadStatus"@);
    lemma_short_key("status"@);
    lemma_short_key("latestValidHash"@);
    lemma_short_key("validationError"@);
}

/// The text of the answer that a payload is being synced.
fn syncing_text(id: u64) -> (r: String)
    ensures
        is_syncing_text(r@, id),
{
    let status: Vec<(&str, Json)> = vec![
        ("status", Json::string("SYNCING")),
        ("latestValidHash", Json::null()),
        ("validationError", Json::null()),
    ];
    let result: Vec<(&str, Json)> = vec![("payloadStatus", Json::object(status))];
    let members: Vec<(&str, Json)> = vec![
        ("jsonrpc", Json::string("2.0")),
        ("id", Json::unsigned(id)),
        ("result", Json::object(result)),
        ("payloadId", Json::null()),
    ];
    let answer = Json::object(members);
    proof {
        reveal_with_fuel(members_of, 5);
        assert(answer@ == syncing_answer(id));
        lemma_syncing_answer_plain(id);
    }
    answer.to_text()
}

/// The answer to a request that the nodes did not settle: that the payload is being synced, unless
/// the method asks for a verification and the payload did not pass it. Then it is the complaint.
pub fn make_syncing_str(id: &u64, method: &str, verification: Result<(), String>) -> (r: String)
    ensures
        answers_unsettled(r@, *id, method@, verification),
{
    if needs_verification(method) {
        match verification {
            Err(complaint) => complaint,
            Ok(_) => syncing_text(*id),
        }
    } else {
        syncing_text(*id)
    }
}

/// What the nodes' answers come to.
#[derive(Debug)]
pub enum FcuConsensus {
    /// No answer, or too few that agree.
    NoMajority,
    /// A majority that is not JSON, or one that some node contradicts.
    Unclear,
    /// A majority that finds the payload invalid.
    Invalid { body: String },
    /// A majority that no node contradicts.
    Settled { body: String },
}

/// What an [`FcuConsensus`] says.
pub enum FcuConsensusView {
    /// See [`FcuConsensus::NoMajority`].
    NoMajority,
    /// See [`FcuConsensus::Unclear`].
    Unclear,
    /// See [`FcuConsensus::Invalid`].
    Invalid { body: Seq<char> },
    /// See [`FcuConsensus::Settled`].
    Settled { body: Seq<char> },
}

impl View for FcuConsensus {
    type V = FcuConsensusView;

    open spec fn view(&self) -> FcuConsensusView {
        match self {
            FcuConsensus::NoMajority => FcuConsensusView::NoMajority,
            FcuConsensus::Unclear => FcuConsensusView::Unclear,
            FcuConsensus::Invalid { body } => FcuConsensusView::Invalid { body: body@ },
            FcuConsensus::Settled { body } => FcuConsensusView::Settled { body: body@ },
        }
    }
}

/// What to answer to a fork choice update or to a new payload.
#[derive(Debug)]
pub enum FcuAnswer {
    /// That the payload is being synced, once `method` and `payload` went through verification.
    Syncing { method: String, payload: Json },
    /// What the nodes answered.
    Reply { body: String },
    /// What the nodes answered, while the request also goes to the nodes that are syncing.
    ReplyAndShare { body: String },
}

/// What an [`FcuAnswer`] says.
pub enum FcuAnswerView {
    /// See [`FcuAnswer::Syncing`].
    Syncing { method: Seq<char>, payload: JsonView },
    /// See [`FcuAnswer::Reply`].
    Reply { body: Seq<char> },
    /// See [`FcuAnswer::ReplyAndShare`].
    ReplyAndShare { body: Seq<char> },
}

impl View for FcuAnswer {
    type V = FcuAnswerView;

    open spec fn view(&self) -> FcuAnswerView {
        match self {
            FcuAnswer::Syncing { method, payload } => FcuAnswerView::Syncing {
                method: method@,
                payload: payload@,
            },
            FcuAnswer::Reply { body } => FcuAnswerView::Reply { body: body@ },
            FcuAnswer::ReplyAndShare { body } => FcuAnswerView::ReplyAndShare { body: body@ },
        }
    }
}

/// Whether a node's answer says that the payload is invalid.
pub open spec fn says_invalid(answer: JsonView) -> bool {
    answer.member("result"@).member("payloadStatus"@).member("status"@).text() == Some("INVALID"@)
}

/// Whether one of the answers says that the payload is invalid. Answers that are not JSON say
/// nothing.
pub open spec fn any_invalid(answers: Seq<Option<JsonView>>) -> bool {
    exists|i: int|
        0 <= i < answers.len() && (#[trigger] answers[i] matches Some(answer) && says_invalid(
            answer,
        ))
}

/// What a node's answer is read as. An empty answer is not read.
pub open spec fn read_answer(text: Seq<char>) -> Option<JsonView> {
    if text.len() == 0 {
        None
    } else {
        parsed_text(text)
    }
}

/// What a majority comes to, given what it and all answers were read as.
pub open spec fn judged(
    majority: Seq<char>,
    reading: Option<JsonView>,
    answers: Seq<Option<JsonView>>,
) -> FcuConsensusView {
    match reading {
        None => FcuConsensusView::Unclear,
        Some(answer) => if says_invalid(answer) {
            FcuConsensusView::Invalid { body: majority }
        } else if any_invalid(answers) {
            FcuConsensusView::Unclear
        } else {
            FcuConsensusView::Settled { body: majority }
        },
    }
}

/// What the nodes' answers come to.
pub open spec fn consensus_on(answers: Seq<Seq<char>>, majority_count: u16) -> FcuConsensusView {
    if answers.len() == 0 || majority(answers, majority_count) is None {
        FcuConsensusView::NoMajority
    } else {
        let top = majority(answers, majority_count)->0;
        judged(
            top,
            parsed_text(top),
            answers.map_values(|text: Seq<char>| read_answer(text)),
        )
    }
}

/// The payload that a request carries.
pub open spec fn payload_of(request: JsonView) -> JsonView {
    request.member("params"@).element(0)
}

/// The answer that a consensus leads to, given what the request was read as. Without a majority, the
/// method is taken as it is; where the majority is unclear, as JSON writes it. There is no answer
/// where the request is needed and is not JSON, or lacks the method.
pub open spec fn phrased(consensus: FcuConsensusView, request: Option<JsonView>) -> Option<
    FcuAnswerView,
> {
    match consensus {
        FcuConsensusView::Invalid { body } => Some(FcuAnswerView::Reply { body }),
        FcuConsensusView::Settled { body } => Some(FcuAnswerView::ReplyAndShare { body }),
        FcuConsensusView::Unclear => match request {
            None => None,
            Some(request) => Some(
                FcuAnswerView::Syncing {
                    method: written_text(request.member("method"@)),
                    payload: payload_of(request),
                },
            ),
        },
        FcuConsensusView::NoMajority => match request {
            None => None,
            Some(request) => match request.member("method"@).text() {
                None => None,
                Some(method) => Some(
                    FcuAnswerView::Syncing { method, payload: payload_of(request) },
                ),
            },
        },
    }
}

/// What an answer says, where there is one.
pub open spec fn said(answer: Option<FcuAnswer>) -> Option<FcuAnswerView> {
    match answer {
        Some(answer) => Some(answer@),
        None => None,
    }
}

/// Whether a node's answer says that the payload is invalid.
pub fn reports_invalid(answer: &Json) -> (r: bool)
    ensures
        r == says_invalid(answer@),
{
    is_text(member(member(member(&answer.value, "result"), "payloadStatus"), "status"), "INVALID")
}

/// What a majority comes to, given what it and all answers were read as.
pub fn fcu_judge(majority: String, reading: &Option<Json>, answers: &Vec<Option<Json>>) -> (r:
    FcuConsensus)
    ensures
        r@ == judged(majority@, content(*reading), contents(answers@)),
{
    match reading {
        None => FcuConsensus::Unclear,
        Some(answer) => {
            if reports_invalid(answer) {
                return FcuConsensus::Invalid { body: majority };
            }
            for i in 0..answers.len()
                invariant
                    forall|j: int|
                        0 <= j < i ==> !((#[trigger] contents(answers@)[j]) matches Some(answer)
                            && says_invalid(answer)),
                    content(*reading) matches Some(answer) && !says_invalid(answer),
            {
                assert(contents(answers@)[i as int] == content(answers@[i as int]));
                match &answers[i] {
                    None => {},
                    Some(answer) => if reports_invalid(answer) {
                        return FcuConsensus::Unclear;
                    },
                }
            }
            FcuConsensus::Settled { body: majority }
        },
    }
}

/// What the nodes' answers come to.
pub fn fcu_consensus(resps: &Vec<String>, majority_count: u16) -> (r: FcuConsensus)
    requires
        countable(texts(resps@)),
    ensures
        r@ == consensus_on(texts(resps@), majority_count),
{
    if resps.len() == 0 {
        return FcuConsensus::NoMajority;
    }
    match fcu_majority(resps, majority_count) {
        None => FcuConsensus::NoMajority,
        Some(top) => {
            let reading = read(top.as_str());
            let mut answers: Vec<Option<Json>> = Vec::new();
            for i in 0..resps.len()
                invariant
                    answers.len() == i,
                    forall|j: int|
                        0 <= j < i ==> content(#[trigger] answers@[j]) == read_answer(resps@[j]@),
            {
                if resps[i].as_str().is_empty() {
                    answers.push(None);
                } else {
                    answers.push(read(resps[i].as_str()));
                }
            }
            assert(contents(answers@) =~= texts(resps@).map_values(
                |text: Seq<char>| read_answer(text),
            ));
            fcu_judge(top, &reading, &answers)
        },
    }
}

/// The payload that a request carries.
fn request_payload(request: &Json) -> (r: Json)
    ensures
        r@ == payload_of(request@),
{
    Json { value: copy_of(element(member(&request.value, "params"), 0)) }
}

/// The answer that a consensus leads to, given what the request was read as. Where the majority is
/// unclear, a method that is a string never leads to a verification.
pub fn phrase(consensus: FcuConsensus, request: &Option<Json>) -> (r: Option<FcuAnswer>)
    ensures
        said(r) == phrased(consensus@, content(*request)),
        consensus is Unclear ==> (r matches Some(FcuAnswer::Syncing { method, .. }) ==> (
        request->0@.member("method"@) is Str ==> !needs_verification_of(method@))),
{
    match consensus {
        FcuConsensus::Invalid { body } => Some(FcuAnswer::Reply { body }),
        FcuConsensus::Settled { body } => Some(FcuAnswer::ReplyAndShare { body }),
        FcuConsensus::Unclear => match request {
            None => None,
            Some(request) => {
                let method = text_for(member(&request.value, "method"));
                proof {
                    reveal_strlit("engine_newPayloadV1");
                }
                Some(FcuAnswer::Syncing { method, payload: request_payload(request) })
            },
        },
        FcuConsensus::NoMajority => match request {
            None => None,
            Some(request) => match text_of(member(&request.value, "method")) {
                None => None,
                Some(method) => Some(
                    FcuAnswer::Syncing {
                        method: method.to_owned(),
                        payload: request_payload(request),
                    },
                ),
            },
        },
    }
}

/// Settles what is answered to a request that the nodes gave some answers to. There is no answer
/// where the request is needed and is not JSON, or lacks the method. Where the majority is
/// unclear, a method that is a string never leads to a verification.
pub fn fcu_logic(resps: &Vec<String>, majority_count: u16, req: &str) -> (r: Option<FcuAnswer>)
    requires
        countable(texts(resps@)),
    ensures
        said(r) == phrased(consensus_on(texts(resps@), majority_count), parsed_text(req@)),
        consensus_on(texts(resps@), majority_count) is Unclear ==> (r matches Some(
            FcuAnswer::Syncing { method, .. },
        ) ==> (parsed_text(req@)->0.member("method"@) is Str ==> !needs_verification_of(method@))),
{
    let consensus = fcu_consensus(resps, majority_count);
    let request = read(req);
    phrase(consensus, &request)
}

/// Settles what is answered to a request that several nodes were asked, given what they sent back:
/// the answers among it count, and nodes that did not answer do not.
pub fn votes_answer(outcomes: &Vec<Outcome>, majority_count: u16, data: &str) -> (r: Option<
    FcuAnswer,
>)
    requires
        countable(texts(bodies_of(outcomes@))),
    ensures
        said(r) == phrased(
            consensus_on(texts(bodies_of(outcomes@)), majority_count),
            parsed_text(data@),
        ),
        consensus_on(texts(bodies_of(outcomes@)), majority_count) is Unclear ==> (r matches Some(
            FcuAnswer::Syncing { method, .. },
        ) ==> (parsed_text(data@)->0.member("method"@) is Str ==> !needs_verification_of(method@))),
{
    fcu_logic(&bodies(outcomes), majority_count, data)
}

impl FcuAnswer {
    /// The reply to the client, given what the verification of the payload came to, and whether the
    /// request also goes to the nodes that are syncing.
    pub fn into_reply(self, id: &u64, verification: Result<(), String>) -> (r: (Reply, bool))
        ensures
            r.0.1 == OK,
            match self {
                FcuAnswer::Reply { body } => r.0.0 == body && !r.1,
                FcuAnswer::ReplyAndShare { body } => r.0.0 == body && r.1,
                FcuAnswer::Syncing { method, .. } => {
                    &&& !r.1
                    &&& answers_unsettled(r.0.0@, *id, method@, verification)
                },
            },
    {
        match self {
            FcuAnswer::Reply { body } => ((body, OK), false),
            FcuAnswer::ReplyAndShare { body } => ((body, OK), true),
            FcuAnswer::Syncing { method, .. } => (
                (make_syncing_str(id, method.as_str(), verification), OK),
                false,
            ),
        }
    }
}

/// The leader among the first `n` answers is one of them, and the first that no answer among them
/// beats.
pub(crate) proof fn lemma_leader(answers: Seq<Seq<char>>, n: int)
    requires
        1 <= n <= answers.len(),
    ensures
        0 <= leader(answers, n) < n,
        forall|j: int|
            0 <= j < n ==> votes(answers, #[trigger] answers[j]) <= votes(
                answers,
                answers[leader(answers, n)],
            ),
        forall|j: int|
            0 <= j < leader(answers, n) ==> votes(answers, #[trigger] answers[j]) < votes(
                answers,
                answers[leader(answers, n)],
            ),
    decreases n,
{
    if n > 1 {
        lemma_leader(answers, n - 1);
    }
}

/// Two different texts do not share an answer.
proof fn lemma_votes_apart(answers: Seq<Seq<char>>, a: Seq<char>, b: Seq<char>)
    requires
        a != b,
    ensures
        votes(answers, a) + votes(answers, b) <= answers.len(),
    decreases answers.len(),
{
    if answers.len() > 0 {
        lemma_votes_apart(answers.drop_last(), a, b);
    }
}

/// The votes for a text are how often it is among the answers.
pub(crate) proof fn lemma_votes_count(answers: Seq<Seq<char>>, text: Seq<char>)
    ensures
        votes(answers, text) == answers.to_multiset().count(text),
    decreases answers.len(),
{
    broadcast use {vstd::seq_lib::group_to_multiset_ensures, vstd::multiset::group_multiset_axioms};

    if answers.len() == 0 {
        assert(!answers.contains(text));
    } else {
        lemma_votes_count(answers.drop_last(), text);
        assert(answers =~= answers.drop_last().push(answers.last()));
    }
}

/// The majority is an answer that enough nodes gave and that no other answer beats. There is none
/// only if no answer was given by enough nodes.
pub proof fn law_majority_is_most_frequent(answers: Seq<Seq<char>>, majority_count: u16)
    requires
        answers.len() > 0,
    ensures
        match majority(answers, majority_count) {
            Some(top) => {
                &&& answers.contains(top)
                &&& votes(answers, top) >= majority_count
                &&& forall|j: int|
                    0 <= j < answers.len() ==> votes(answers, #[trigger] answers[j]) <= votes(
                        answers,
                        top,
                    )
            },
            None => forall|j: int|
                0 <= j < answers.len() ==> votes(answers, #[trigger] answers[j]) < majority_count,
        },
{
    lemma_leader(answers, answers.len() as int);
}

/// What is a majority stays one where fewer nodes suffice.
pub proof fn law_fewer_nodes_suffice(answers: Seq<Seq<char>>, lower: u16, higher: u16)
    requires
        lower <= higher,
        majority(answers, higher) is Some,
    ensures
        majority(answers, lower) == majority(answers, higher),
{
}

/// An answer that was given more often than each other one is the majority if it was given often
/// enough.
proof fn lemma_strict_leader(answers: Seq<Seq<char>>, top: Seq<char>, majority_count: u16)
    requires
        answers.contains(top),
        forall|j: int|
            0 <= j < answers.len() && answers[j] != top ==> votes(answers, #[trigger] answers[j])
                < votes(answers, top),
    ensures
        majority(answers, majority_count) == if votes(answers, top) >= majority_count {
            Some(top)
        } else {
            None
        },
{
    lemma_leader(answers, answers.len() as int);
    let k = choose|k: int| 0 <= k < answers.len() && answers[k] == top;
    assert(votes(answers, answers[k]) <= votes(
        answers,
        answers[leader(answers, answers.len() as int)],
    ));
}

/// The order in which the nodes answer makes no difference, unless two answers lead with the same
/// number of votes.
pub proof fn law_majority_ignores_order(
    answers: Seq<Seq<char>>,
    shuffled: Seq<Seq<char>>,
    top: Seq<char>,
    majority_count: u16,
)
    requires
        answers.to_multiset() == shuffled.to_multiset(),
        answers.contains(top),
        forall|j: int|
            0 <= j < answers.len() && answers[j] != top ==> votes(answers, #[trigger] answers[j])
                < votes(answers, top),
    ensures
        majority(shuffled, majority_count) == majority(answers, majority_count),
{
    broadcast use vstd::seq_lib::group_to_multiset_ensures;

    assert forall|text: Seq<char>| #[trigger] votes(shuffled, text) == votes(answers, text)
        && shuffled.contains(text) == answers.contains(text) by {
        lemma_votes_count(answers, text);
        lemma_votes_count(shuffled, text);
    }
    assert(votes(shuffled, top) == votes(answers, top));
    assert forall|j: int| 0 <= j < shuffled.len() && shuffled[j] != top implies votes(
        shuffled,
        #[trigger] shuffled[j],
    ) < votes(shuffled, top) by {
        let text = shuffled[j];
        assert(shuffled.contains(text));
        assert(votes(shuffled, text) == votes(answers, text));
        let i = choose|i: int| 0 <= i < answers.len() && answers[i] == text;
        assert(votes(answers, answers[i]) < votes(answers, top));
    }
    lemma_strict_leader(answers, top, majority_count);
    lemma_strict_leader(shuffled, top, majority_count);
}

/// What more than half of the nodes answer is the majority, if that many suffice.
pub proof fn law_more_than_half_decide(
    answers: Seq<Seq<char>>,
    top: Seq<char>,
    majority_count: u16,
)
    requires
        2 * votes(answers, top) > answers.len(),
        votes(answers, top) >= majority_count,
    ensures
        majority(answers, majority_count) == Some(top),
{
    lemma_votes_count(answers, top);
    assert(answers.contains(top)) by {
        broadcast use vstd::seq_lib::group_to_multiset_ensures;

    }
    assert forall|j: int| 0 <= j < answers.len() && answers[j] != top implies votes(
        answers,
        #[trigger] answers[j],
    ) < votes(answers, top) by {
        lemma_votes_apart(answers, answers[j], top);
    }
    lemma_strict_leader(answers, top, majority_count);
}

/// What is passed on to the client was answered by a node.
pub proof fn law_passed_on_is_a_nodes_answer(
    answers: Seq<Seq<char>>,
    majority_count: u16,
    request: Option<JsonView>,
)
    ensures
        match phrased(consensus_on(answers, majority_count), request) {
            Some(FcuAnswerView::Reply { body }) => answers.contains(body) && votes(answers, body)
                >= majority_count,
            Some(FcuAnswerView::ReplyAndShare { body }) => answers.contains(body) && votes(
                answers,
                body,
            ) >= majority_count,
            _ => true,
        },
{
    if answers.len() > 0 {
        law_majority_is_most_frequent(answers, majority_count);
    }
}

/// Once a node finds the payload invalid, the answer that is passed on says that it is invalid, or
/// none is passed on: then the payload is being synced.
pub proof fn law_no_valid_answer_against_a_node(
    answers: Seq<Seq<char>>,
    majority_count: u16,
    request: Option<JsonView>,
    i: int,
)
    requires
        0 <= i < answers.len(),
        read_answer(answers[i]) matches Some(answer) && says_invalid(answer),
    ensures
        match phrased(consensus_on(answers, majority_count), request) {
            Some(FcuAnswerView::Reply { body }) => parsed_text(body) matches Some(answer)
                && says_invalid(answer),
            Some(FcuAnswerView::ReplyAndShare { body }) => false,
            _ => true,
        },
{
    let read = answers.map_values(|text: Seq<char>| read_answer(text));
    assert(read[i] == read_answer(answers[i]));
    assert(any_invalid(read));
}

/// A request goes to the nodes that are syncing only if the answer to it is passed on and no node
/// finds the payload invalid.
pub proof fn law_shared_only_when_settled(
    answers: Seq<Seq<char>>,
    majority_count: u16,
    request: Option<JsonView>,
)
    ensures
        phrased(consensus_on(answers, majority_count), request) is Some && phrased(
            consensus_on(answers, majority_count),
            request,
        )->0 is ReplyAndShare ==> forall|i: int|
            0 <= i < answers.len() ==> !(read_answer(#[trigger] answers[i]) matches Some(answer)
                && says_invalid(answer)),
{
    let read = answers.map_values(|text: Seq<char>| read_answer(text));
    if phrased(consensus_on(answers, majority_count), request) is Some && phrased(
        consensus_on(answers, majority_count),
        request,
    )->0 is ReplyAndShare {
        assert forall|i: int| 0 <= i < answers.len() implies !(read_answer(
            #[trigger] answers[i],
        ) matches Some(answer) && says_invalid(answer)) by {
            assert(read[i] == read_answer(answers[i]));
        }
    }
}

/// What all nodes agree on is passed on, if it is JSON and there are enough of them.
pub proof fn law_agreement_is_passed_on(
    answers: Seq<Seq<char>>,
    text: Seq<char>,
    majority_count: u16,
    request: Option<JsonView>,
)
    requires
        answers.len() > 0,
        answers.len() >= majority_count,
        forall|i: int| 0 <= i < answers.len() ==> #[trigger] answers[i] == text,
        parsed_text(text) is Some,
    ensures
        phrased(consensus_on(answers, majority_count), request) == Some(
            if says_invalid(parsed_text(text)->0) {
                FcuAnswerView::Reply { body: text }
            } else {
                FcuAnswerView::ReplyAndShare { body: text }
            },
        ),
{
    lemma_unanimous(answers, text);
    law_more_than_half_decide(answers, text, majority_count);
    let read = answers.map_values(|text: Seq<char>| read_answer(text));
    assert forall|i: int| 0 <= i < read.len() implies #[trigger] read[i] == read_answer(text) by {
        assert(answers[i] == text);
    }
}

/// An answer that all nodes gave has as many votes as there are nodes.
proof fn lemma_unanimous(answers: Seq<Seq<char>>, text: Seq<char>)
    requires
        forall|i: int| 0 <= i < answers.len() ==> #[trigger] answers[i] == text,
    ensures
        votes(answers, text) == answers.len(),
    decreases answers.len(),
{
    if answers.len() > 0 {
        let before = answers.drop_last();
        assert forall|i: int| 0 <= i < before.len() implies #[trigger] before[i] == text by {
            assert(answers[i] == text);
        }
        lemma_unanimous(before, text);
        assert(answers[answers.len() - 1] == text);
    }
}

/// The answer that a payload is being synced says so, under the number of the request, and does
/// not say that the payload is invalid.
pub proof fn law_syncing_answer_says_so(id: u64)
    ensures
        syncing_answer(id).member("id"@).unsigned() == Some(id),
        syncing_answer(id).member("jsonrpc"@).text() == Some("2.0"@),
        syncing_answer(id).member("result"@).member("payloadStatus"@).member("status"@).text()
            == Some("SYNCING"@),
        syncing_answer(id).member("payloadId"@) is Null,
        !says_invalid(syncing_answer(id)),
{
    reveal_strlit("jsonrpc");
    reveal_strlit("id");
    reveal_strlit("result");
    reveal_strlit("payloadId");
    reveal_strlit("status");
    reveal_strlit("latestValidHash");
    reveal_strlit("validationError");
    reveal_strlit("SYNCING");
    reveal_strlit("INVALID");
    assert("jsonrpc"@.len() == 7 && "id"@.len() == 2 && "result"@.len() == 6 && "payloadId"@.len()
        == 9);
    assert("status"@.len() == 6 && "latestValidHash"@.len() == 15);
    assert("latestValidHash"@[0] != "validationError"@[0]);
    assert("SYNCING"@[0] != "INVALID"@[0]);
}

/// The answer that a payload is being synced depends on the number of the request alone: neither
/// the method nor a verification that was passed or not asked for makes a difference to it, and
/// requests with different numbers are answered differently.
pub proof fn law_syncing_text_depends_on_id(
    first: Seq<char>,
    id: u64,
    method: Seq<char>,
    verification: Result<(), String>,
    second: Seq<char>,
    other_id: u64,
    other_method: Seq<char>,
    other_verification: Result<(), String>,
)
    requires
        answers_unsettled(first, id, method, verification),
        answers_unsettled(second, other_id, other_method, other_verification),
        verification is Ok || !needs_verification_of(method),
        other_verification is Ok || !needs_verification_of(other_method),
    ensures
        first == second <==> id == other_id,
{
    law_syncing_answer_says_so(id);
    law_syncing_answer_says_so(other_id);
}

} // verus!

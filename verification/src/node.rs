//! One execution node: where it is, and what the last status check said of it.

use vstd::prelude::*;

use crate::auth::{carries_issued, fresh_bearer, JwtKey};
use crate::json::{
    lemma_short_key, member, members_of, parsed_bytes, parsed_text, truth_of, written_text, Json, JsonView,
};

verus! {

/// The status of a node that did not answer.
pub const OFFLINE: u8 = 0;

/// The status of a node that answers and is in sync.
pub const ONLINE: u8 = 1;

/// The status of a node that answers but is still syncing.
pub const SYNCING: u8 = 2;

/// The status of a node that was not checked yet.
pub const UNCHECKED: u8 = 4;

/// How long a node may take over a request with a time limit, in milliseconds.
pub const REQUEST_TIMEOUT_MS: u64 = 2500;

/// The `Content-Type` header that requests go to a node with, and answers to a client.
pub const CONTENT_TYPE: &'static str = "application/json";

/// An execution node.
#[derive(Debug)]
pub struct Node {
    /// The address of the node's authenticated port.
    pub url: String,
    /// `OFFLINE`, `ONLINE`, `SYNCING` or `UNCHECKED`.
    pub status: u8,
    /// How long the last answered status check took, in milliseconds.
    pub resp_time: u128,
}

/// A request to a node.
#[derive(Debug)]
pub struct NodeRequest {
    /// The address that it goes to.
    pub url: String,
    /// The `Authorization` header.
    pub authorization: String,
    /// The body.
    pub body: String,
    /// How long the node may take over it in milliseconds, if there is a limit.
    pub timeout_ms: Option<u64>,
}

/// What a [`NodeRequest`] says.
pub struct NodeRequestView {
    /// The address that it goes to.
    pub url: Seq<char>,
    /// The `Authorization` header.
    pub authorization: Seq<char>,
    /// The body.
    pub body: Seq<char>,
    /// How long the node may take over it in milliseconds, if there is a limit.
    pub timeout_ms: Option<u64>,
}

impl View for NodeRequest {
    type V = NodeRequestView;

    open spec fn view(&self) -> NodeRequestView {
        NodeRequestView {
            url: self.url@,
            authorization: self.authorization@,
            body: self.body@,
            timeout_ms: self.timeout_ms,
        }
    }
}

/// What an answered status check found.
#[derive(Debug, Clone, Copy, PartialEq, Eq, Structural)]
pub struct CheckAliveResult {
    /// `ONLINE` or `SYNCING`.
    pub status: u8,
    /// How long the answer took, in milliseconds.
    pub resp_time: u128,
}

/// Why a status check found nothing.
#[derive(Debug, Clone, Copy, PartialEq, Eq, Structural)]
pub enum CheckError {
    /// The node did not answer.
    Unreachable,
    /// The node answered, and the answer was not JSON or broke off.
    BadBody,
}

/// What came of the request that a status check sends.
#[derive(Debug)]
pub enum StatusReply {
    /// No answer.
    Unreachable,
    /// An answer whose body could not be received.
    Unreadable,
    /// An answer, and how long it took in milliseconds.
    Answered { body: Vec<u8>, resp_time: u128 },
}

/// The status that the answer to `eth_syncing` gives a node: the result `false` says that the node
/// is in sync, and anything else that it is syncing.
pub open spec fn answered_status(answer: JsonView) -> u8 {
    if answer.member("result"@).truth() == Some(false) {
        ONLINE
    } else {
        SYNCING
    }
}

/// A node after a status check, and what the check found.
pub open spec fn checked(node: Node, reply: StatusReply) -> (
    Node,
    Result<CheckAliveResult, CheckError>,
) {
    match reply {
        StatusReply::Unreachable => (
            Node { status: OFFLINE, ..node },
            Err(CheckError::Unreachable),
        ),
        StatusReply::Unreadable => (node, Err(CheckError::BadBody)),
        StatusReply::Answered { body, resp_time } => match parsed_bytes(body@) {
            None => (node, Err(CheckError::BadBody)),
            Some(answer) => (
                Node { status: answered_status(answer), resp_time, ..node },
                Ok(CheckAliveResult { status: answered_status(answer), resp_time }),
            ),
        },
    }
}

/// Whether the reply to a status check is an answer that can be read.
pub open spec fn answers(reply: StatusReply) -> bool {
    reply matches StatusReply::Answered { body, .. } && parsed_bytes(body@) is Some
}

/// Whether the reply to a status check says that the node is in sync.
pub open spec fn says_in_sync(reply: StatusReply) -> bool {
    reply matches StatusReply::Answered { body, .. } && (parsed_bytes(body@) matches Some(answer)
        && answered_status(answer) == ONLINE)
}

/// The request that takes `data` to a node under a token.
pub open spec fn question(
    node: Node,
    data: Seq<char>,
    jwt_token: Seq<char>,
    timeout_ms: Option<u64>,
) -> NodeRequestView {
    NodeRequestView { url: node.url@, authorization: jwt_token, body: data, timeout_ms }
}

/// The requests that take `data` to nodes under a token.
pub open spec fn questions(
    nodes: Seq<Node>,
    data: Seq<char>,
    jwt_token: Seq<char>,
    timeout_ms: Option<u64>,
) -> Seq<NodeRequestView> {
    nodes.map_values(|node: Node| question(node, data, jwt_token, timeout_ms))
}

/// What requests say.
pub open spec fn said_by(requests: Seq<NodeRequest>) -> Seq<NodeRequestView> {
    requests.map_values(|request: NodeRequest| request@)
}

/// The body of the request that a status check sends.
pub open spec fn status_question() -> JsonView {
    JsonView::Object(
        map![
            "jsonrpc"@ => JsonView::Str("2.0"@),
            "method"@ => JsonView::Str("eth_syncing"@),
            "params"@ => JsonView::Array(Seq::empty()),
            "id"@ => JsonView::Integer(1),
        ],
    )
}

/// Whether a request asks a node whether it is syncing, under a token that was issued with a
/// secret at a time that the clock came to.
pub open spec fn asks_status(request: NodeRequestView, node: Node, secret: Seq<u8>) -> bool {
    &&& request == question(
        node,
        written_text(status_question()),
        request.authorization,
        None,
    )
    &&& parsed_text(request.body) == Some(status_question())
    &&& carries_issued(request.authorization, secret)
}

/// A request with a time limit and one without differ in nothing else.
pub proof fn law_only_the_limit_differs(node: Node, data: Seq<char>, jwt_token: Seq<char>)
    ensures
        question(node, data, jwt_token, Some(REQUEST_TIMEOUT_MS)) == (NodeRequestView {
            timeout_ms: Some(REQUEST_TIMEOUT_MS),
            ..question(node, data, jwt_token, None)
        }),
        question(node, data, jwt_token, None).timeout_ms is None,
{
}

/// The body of the request that a status check sends can be read back.
proof fn lemma_status_question_plain()
    ensures
        status_question().plain_within(127),
{
    reveal_with_fuel(JsonView::plain_within, 3);
    reveal_strlit("jsonrpc");
    reveal_strlit("method");
    reveal_strlit("params");
    reveal_strlit("id");
    lemma_short_key("jsonrpc"@);
    lemma_short_key("method"@);
    lemma_short_key("params"@);
    lemma_short_key("id"@);
}

/// The body of the request that a status check sends.
fn status_body() -> (r: Json)
    ensures
        r@ == status_question(),
{
    let params: Vec<Json> = Vec::new();
    assert(params@.map_values(|item: Json| item@) =~= Seq::empty());
    let members: Vec<(&str, Json)> = vec![
        ("jsonrpc", Json::string("2.0")),
        ("method", Json::string("eth_syncing")),
        ("params", Json::array(params)),
        ("id", Json::unsigned(1)),
    ];
    proof {
        reveal_with_fuel(members_of, 5);
    }
    Json::object(members)
}

impl Clone for Node {
    fn clone(&self) -> (r: Self)
        ensures
            r == *self,
    {
        Node { url: self.url.clone(), status: self.status, resp_time: self.resp_time }
    }
}

impl Node {
    /// A node that was not checked yet.
    pub fn new(url: String) -> (r: Node)
        ensures
            r.url == url,
            r.status == UNCHECKED,
            r.resp_time == 0,
    {
        Node { url, status: UNCHECKED, resp_time: 0 }
    }

    /// Marks the node as in sync.
    pub fn set_online(&mut self)
        ensures
            *final(self) == (Node { status: ONLINE, ..*old(self) }),
    {
        self.status = ONLINE;
    }

    /// Marks the node as unreachable.
    pub fn set_offline(&mut self)
        ensures
            *final(self) == (Node { status: OFFLINE, ..*old(self) }),
    {
        self.status = OFFLINE;
    }

    /// Marks the node as syncing.
    pub fn set_syncing(&mut self)
        ensures
            *final(self) == (Node { status: SYNCING, ..*old(self) }),
    {
        self.status = SYNCING;
    }

    /// The request that takes `data` to the node, with a time limit.
    pub fn do_request(&self, data: &str, jwt_token: &str) -> (r: NodeRequest)
        ensures
            r@ == question(*self, data@, jwt_token@, Some(REQUEST_TIMEOUT_MS)),
    {
        NodeRequest {
            url: self.url.clone(),
            authorization: jwt_token.to_owned(),
            body: data.to_owned(),
            timeout_ms: Some(REQUEST_TIMEOUT_MS),
        }
    }

    /// The request that takes `data` to the node, without a time limit.
    pub fn do_request_no_timeout(&self, data: &str, jwt_token: &str) -> (r: NodeRequest)
        ensures
            r@ == question(*self, data@, jwt_token@, None),
    {
        NodeRequest {
            url: self.url.clone(),
            authorization: jwt_token.to_owned(),
            body: data.to_owned(),
            timeout_ms: None,
        }
    }

    /// The request that a status check sends to the node: whether it is syncing, under a token that
    /// was issued now.
    pub fn status_request(&self, jwt_key: &JwtKey) -> (r: NodeRequest)
        ensures
            asks_status(r@, *self, jwt_key.secret@),
            parsed_text(r@.body) == Some(status_question()),
    {
        let body = status_body();
        proof {
            lemma_status_question_plain();
        }
        let bearer = fresh_bearer(jwt_key);
        self.do_request_no_timeout(body.to_text().as_str(), bearer.as_str())
    }

    /// Takes down what the node answered to `eth_syncing`, and how long it took.
    pub fn note_answer(&mut self, answer: &Json, resp_time: u128) -> (r: CheckAliveResult)
        ensures
            *final(self) == (Node {
                status: answered_status(answer@),
                resp_time,
                ..*old(self)
            }),
            r == (CheckAliveResult { status: answered_status(answer@), resp_time }),
    {
        match truth_of(member(&answer.value, "result")) {
            Some(false) => self.set_online(),
            _ => self.set_syncing(),
        }
        self.resp_time = resp_time;
        CheckAliveResult { status: self.status, resp_time }
    }

    /// Takes down what came of a status check. A node that did not answer is offline from now on;
    /// one that answered something else than JSON stays as it was.
    pub fn check_status(&mut self, reply: &StatusReply) -> (r: Result<CheckAliveResult, CheckError>)
        ensures
            (*final(self), r) == checked(*old(self), *reply),
    {
        match reply {
            StatusReply::Unreachable => {
                self.set_offline();
                Err(CheckError::Unreachable)
            },
            StatusReply::Unreadable => Err(CheckError::BadBody),
            StatusReply::Answered { body, resp_time } => match Json::parse_bytes(body.as_slice()) {
                Err(_) => Err(CheckError::BadBody),
                Ok(answer) => Ok(self.note_answer(&answer, *resp_time)),
            },
        }
    }
}

} // verus!

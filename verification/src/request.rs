//! What is done with a client's request.

use vstd::prelude::*;

use crate::auth::{carries_issued, fresh_bearer, JwtKey};
use crate::json::{member, parsed_text, text_of, unsigned_of, Json, JsonView};
use crate::reply::BAD_REQUEST;
use crate::text::{begins_with, has_prefix};

verus! {

/// What the methods of the engine API begin with.
pub const ENGINE_PREFIX: &'static str = "engine_";

/// Where a request is routed.
#[derive(Debug)]
pub enum Route {
    /// The request is not JSON, and this is answered.
    Refused { body: String, status: u16 },
    /// The request names no method.
    NoMethod,
    /// The request is for the engine API.
    Engine { j: Json },
    /// The request is for another API.
    Normal,
}

/// Whether a request is for the engine API, if it names a method.
pub open spec fn is_for_engine(request: JsonView) -> Option<bool> {
    match request.member("method"@).text() {
        None => None,
        Some(method) => Some(begins_with(method, ENGINE_PREFIX@)),
    }
}

/// Whether a request is for the engine API, if it names a method.
pub fn for_engine(j: &Json) -> (r: Option<bool>)
    ensures
        r == is_for_engine(j@),
{
    match text_of(member(&j.value, "method")) {
        None => None,
        Some(method) => Some(has_prefix(method, ENGINE_PREFIX)),
    }
}

/// Routes a request by its body.
pub fn route_all(body: &str) -> (r: Route)
    ensures
        match parsed_text(body@) {
            None => {
                &&& r matches Route::Refused { body: complaint, status }
                &&& complaint@ == "Couldn't deserialize request body"@
                &&& status == BAD_REQUEST
            },
            Some(request) => match is_for_engine(request) {
                None => r is NoMethod,
                Some(true) => r matches Route::Engine { j } && j@ == request,
                Some(false) => r is Normal,
            },
        },
{
    match Json::parse(body) {
        Err(_) => Route::Refused {
            body: "Couldn't deserialize request body".to_owned(),
            status: BAD_REQUEST,
        },
        Ok(j) => match for_engine(&j) {
            None => Route::NoMethod,
            Some(true) => Route::Engine { j },
            Some(false) => Route::Normal,
        },
    }
}

/// The `Authorization` header that a request which is not for the engine API goes to a node with:
/// the client's own, or one with a token that was issued now.
pub fn authorization(header: Option<String>, jwt_key: &JwtKey) -> (r: String)
    ensures
        match header {
            Some(given) => r == given,
            None => carries_issued(r@, jwt_key.secret@),
        },
{
    match header {
        Some(given) => given,
        None => fresh_bearer(jwt_key),
    }
}

/// The number that a request is known by.
pub fn request_id(j: &Json) -> (r: Option<u64>)
    ensures
        r == j@.member("id"@).unsigned(),
{
    unsigned_of(member(&j.value, "id"))
}

} // verus!

//! What holds of the library's results, said of the inputs alone.
//!
//! The laws speak of what a function returns for what it was given: `call_ensures` stands for a
//! call and its outcome. What a document says is told by its objects and arrays.

use vstd::prelude::*;

use crate::json::JsonView;

pub mod answers;
pub mod blocks;
pub mod checks;
pub mod routes;
pub mod settings;

verus! {

/// Whether a value is an object with a member under a key.
pub open spec fn holds(value: JsonView, key: Seq<char>, inner: JsonView) -> bool {
    value matches JsonView::Object(members) && members.dom().contains(key) && members[key] == inner
}

/// Whether a value is no object with a member under a key.
pub open spec fn lacks(value: JsonView, key: Seq<char>) -> bool {
    value matches JsonView::Object(members) ==> !members.dom().contains(key)
}

/// The texts of strings.
pub open spec fn spoken(strings: Seq<String>) -> Seq<Seq<char>> {
    Seq::new(strings.len(), |i: int| strings[i]@)
}

} // verus!

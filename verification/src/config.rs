//! What the command line says.

use vstd::prelude::*;

use crate::node::{Node, UNCHECKED};
use crate::text::{comma_pieces, same_text, split_commas};

verus! {

/// How much is logged.
#[derive(Debug, Clone, Copy, PartialEq, Eq, Structural)]
pub enum LogLevel {
    /// Everything.
    Trace,
    /// What helps to find faults.
    Debug,
    /// What happens.
    Info,
    /// What may be wrong.
    Warn,
    /// What is wrong.
    Error,
}

/// The log level with a name. Any other name stands for `Info`.
pub open spec fn level_named(name: Seq<char>) -> LogLevel {
    if name == "trace"@ {
        LogLevel::Trace
    } else if name == "debug"@ {
        LogLevel::Debug
    } else if name == "warn"@ {
        LogLevel::Warn
    } else if name == "error"@ {
        LogLevel::Error
    } else {
        LogLevel::Info
    }
}

/// The log level with a name. Any other name stands for `Info`.
pub fn log_level(name: &str) -> (r: LogLevel)
    ensures
        r == level_named(name@),
{
    if same_text(name, "trace") {
        LogLevel::Trace
    } else if same_text(name, "debug") {
        LogLevel::Debug
    } else if same_text(name, "warn") {
        LogLevel::Warn
    } else if same_text(name, "error") {
        LogLevel::Error
    } else {
        LogLevel::Info
    }
}

/// The nodes whose addresses a list gives, with commas between them.
pub fn nodes_named(list: &str) -> (r: Vec<Node>)
    ensures
        r@.map_values(|node: Node| node.url@) == comma_pieces(list@),
        forall|i: int|
            0 <= i < r@.len() ==> (#[trigger] r@[i]).status == UNCHECKED && r@[i].resp_time == 0,
{
    let urls = split_commas(list);
    let mut nodes: Vec<Node> = Vec::new();
    for i in 0..urls.len()
        invariant
            nodes.len() == i,
            forall|k: int|
                0 <= k < i ==> (#[trigger] nodes@[k]).url == urls@[k] && nodes@[k].status
                    == UNCHECKED && nodes@[k].resp_time == 0,
    {
        nodes.push(Node::new(urls[i].clone()));
    }
    assert(nodes@.map_values(|node: Node| node.url@) =~= comma_pieces(list@));
    nodes
}

} // verus!

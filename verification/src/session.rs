//! The `session` commands: listing and attaching.
use vstd::prelude::*;
use crate::multiplexer::{Multiplexer, MuxError, Session};
use crate::text::concat2;
use crate::tree::session_names;

verus! {

broadcast use vstd::string::group_string_axioms;

/// Attach the terminal to the session `name`.
pub fn attach<M: Multiplexer>(mux: &M, name: &str) -> Result<(), MuxError> {
    mux.attach_session(name)
}

/// The lines `session list` prints: each session name, indented by two
/// spaces.
pub fn session_list_lines(sessions: &Vec<Session>) -> (r: Vec<String>)
    ensures
        r@.len() == sessions@.len(),
        forall|i: int|
            0 <= i < r@.len() ==> (#[trigger] r@[i])@ == "  "@ + session_names(sessions@)[i],
{
    let mut r: Vec<String> = Vec::new();
    let mut i: usize = 0;
    while i < sessions.len()
        invariant
            i <= sessions.len(),
            r@.len() == i,
            forall|k: int|
                0 <= k < i ==> (#[trigger] r@[k])@ == "  "@ + session_names(sessions@)[k],
        decreases sessions.len() - i,
    {
        r.push(concat2("  ", sessions[i].name.as_str()));
        i = i + 1;
    }
    r
}

} // verus!

//! The registry of handles that may log in.
//!
//! An immutable set of allowed handle strings, fixed when it is built
//! and consulted by exact, case-sensitive match. It is injected into
//! the login path behind the single predicate [`HandleRegistry::is_valid`],
//! so a future server-driven registry can replace it without touching
//! the callers.

use vstd::prelude::*;
use vstd::string::StringExecFns;

verus! {

/// A fixed set of handle strings that are allowed to log in.
pub struct HandleRegistry {
    pub handles: Vec<String>,
}

impl HandleRegistry {
    /// Whether `name` matches one of the registered handles exactly.
    pub open spec fn contains_handle(&self, name: Seq<char>) -> bool {
        exists|i: int| 0 <= i < self.handles@.len() && #[trigger] self.handles@[i]@ == name
    }

    pub fn new(handles: Vec<String>) -> (r: HandleRegistry)
        ensures
            r.handles@ == handles@,
    {
        HandleRegistry { handles }
    }

    /// Answers "is this string a valid login handle?" by exact,
    /// case-sensitive string match; no mutation, no network.
    pub fn is_valid(&self, candidate: &String) -> (r: bool)
        ensures
            r == self.contains_handle(candidate@),
    {
        let mut i: usize = 0;
        while i < self.handles.len()
            invariant
                i <= self.handles@.len(),
                forall|j: int| 0 <= j < i ==> #[trigger] self.handles@[j]@ != candidate@,
            decreases self.handles@.len() - i,
        {
            if self.handles[i] == *candidate {
                assert(self.handles@[i as int]@ == candidate@);
                return true;
            }
            i += 1;
        }
        false
    }
}

/// The compiled-in registry this client starts with, a placeholder for
/// a future server-issued identity source.
pub fn chat_handles() -> (r: HandleRegistry)
    ensures
        r.handles@.len() == 2,
        r.handles@[0]@ == "tete"@,
        r.handles@[1]@ == "pepe"@,
{
    let mut handles: Vec<String> = Vec::new();
    handles.push(String::from_str("tete"));
    handles.push(String::from_str("pepe"));
    HandleRegistry { handles }
}

} // verus!

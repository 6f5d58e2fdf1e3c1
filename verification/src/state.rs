//! What the updater remembers between runs.

use vstd::prelude::*;

verus! {

/// The version last written to the inactive slot.
pub struct State {
    pub current_version: String,
}

impl State {
    /// The state read from disk, or the empty state where there was none
    /// (or it could not be read).
    pub fn read_or_default(read: Option<State>) -> (res: State)
        ensures
            match read {
                Some(s) => res.current_version@ == s.current_version@,
                None => res.current_version@ == Seq::<char>::empty(),
            },
    {
        match read {
            Some(s) => s,
            None => State { current_version: String::new() },
        }
    }
}

} // verus!

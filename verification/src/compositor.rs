//! The compositor's state record.

use vstd::prelude::*;

verus! {

pub struct CompositorState {
    pub version: &'static str,
}

impl CompositorState {
    /// The state of a compositor built as the given package version.
    pub fn new(version: &'static str) -> (r: Self)
        ensures
            r.version@ == version@,
    {
        CompositorState { version }
    }
}

} // verus!

use vstd::prelude::*;

verus! {

/// The body of the index route: the running engine's version.
pub struct Index {
    pub version: String,
}

/// Builds the index route's body from the engine's version.
pub fn get(version: String) -> (r: Index)
    ensures
        r.version@ == version@,
{
    Index { version }
}

} // verus!

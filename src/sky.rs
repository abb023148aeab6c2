use vstd::prelude::*;

verus! {

/// Background sky: a vertical gradient between two radiances, given for all
/// four lanes at once.
#[derive(Clone, Copy, Debug)]
pub struct Sky<S> {
    pub wide_top: S,
    pub wide_bottom: S,
}

impl<S> Sky<S> {
    pub fn new(top: S, bottom: S) -> (r: Self)
        ensures
            r.wide_top == top,
            r.wide_bottom == bottom,
    {
        Self { wide_top: top, wide_bottom: bottom }
    }
}

} // verus!

//! The outgoing end a stage hands back while the flow runs.

use vstd::prelude::*;

use super::flow::Flow;

verus! {

/// Flow out of a stage.
pub struct Out {
    flow: Flow,
}

impl Out {
    /// The flow this end belongs to.
    pub closed spec fn spec_flow(&self) -> Flow {
        self.flow
    }

    /// Constructs an `Out` from a `Flow`.
    pub(super) fn new(flow: Flow) -> (r: Out)
        ensures
            r.spec_flow() == flow,
    {
        Out { flow }
    }

    /// Consumes the `Out` and returns its `Flow`.
    pub(super) fn flow(self) -> (r: Flow)
        ensures
            r == self.spec_flow(),
    {
        self.flow
    }
}

} // verus!

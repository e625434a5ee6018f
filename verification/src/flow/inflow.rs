//! The incoming end a stage receives while the flow runs.

use vstd::prelude::*;

use super::flow::Flow;
use super::outflow::Out;

verus! {

/// Flow into a stage.
pub struct In {
    flow: Flow,
}

impl In {
    /// The flow this end belongs to.
    pub closed spec fn spec_flow(&self) -> Flow {
        self.flow
    }

    /// Constructs an `In` from a `Flow`.
    pub(super) fn new(flow: Flow) -> (r: In)
        ensures
            r.spec_flow() == flow,
    {
        In { flow }
    }

    /// Consumes the `In` and returns its `Flow`.
    pub(super) fn flow(self) -> (r: Flow)
        ensures
            r == self.spec_flow(),
    {
        self.flow
    }

    /// Defines a transfer from `In` to `Out`.
    pub fn transfer(self) -> (r: Out)
        ensures
            r.spec_flow() == self.spec_flow(),
    {
        self.flow.transfer()
    }

    /// Defines a source.
    pub fn source(self) -> (r: Out)
        ensures
            r.spec_flow() == self.spec_flow(),
    {
        self.flow.source()
    }

    /// Defines a sink.
    pub fn sink(self) -> (r: Out)
        ensures
            r.spec_flow() == self.spec_flow(),
    {
        self.flow.sink()
    }
}

} // verus!

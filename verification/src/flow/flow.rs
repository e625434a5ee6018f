//! The flow under construction and its stage list.

use vstd::prelude::*;

use super::outflow::Out;

verus! {

/// A stage registered with a flow.  (Verus does not yet take function
/// pointer types, so the stage's behavior is carried by the running ends
/// `In` and `Out` rather than by a stored function.)
#[derive(Clone, Copy, PartialEq, Eq, Structural, Debug)]
pub struct FlowStage {}

/// Private construction state of a flow.
#[derive(Clone, Copy, PartialEq, Eq, Structural, Debug)]
pub(super) struct FlowState {}

impl FlowState {
    pub(super) fn new() -> (r: FlowState)
        ensures
            r == (FlowState {  }),
    {
        FlowState {  }
    }
}

/// A data flow being assembled stage by stage.
#[derive(Clone, Copy, PartialEq, Eq, Structural, Debug)]
pub struct Flow {
    pub(super) state: FlowState,
}

impl Flow {
    /// The empty flow, as a value.
    pub closed spec fn spec_new() -> Flow {
        Flow { state: FlowState {  } }
    }

    /// Constructs an empty flow.
    pub fn new() -> (r: Flow)
        ensures
            r == Flow::spec_new(),
    {
        Flow { state: FlowState::new() }
    }

    /// Adds a stage to the end of the flow.
    pub fn to(self, stage: FlowStage) -> (r: Flow)
        ensures
            r == self,
    {
        let _ = stage;
        self
    }

    /// Implements a source stage.
    pub(super) fn source(self) -> (r: Out)
        ensures
            r.spec_flow() == self,
    {
        Out::new(self)
    }

    /// Implements a sink stage.
    pub(super) fn sink(self) -> (r: Out)
        ensures
            r.spec_flow() == self,
    {
        Out::new(self)
    }

    /// Implements a transfer stage.
    pub(super) fn transfer(self) -> (r: Out)
        ensures
            r.spec_flow() == self,
    {
        Out::new(self)
    }
}

} // verus!

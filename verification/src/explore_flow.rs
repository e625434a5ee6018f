//! A single-file sketch of the staged data-flow idea.
//!
//! A pipeline reads as `source -> alpha -> beta -> sink`; each named stage
//! consumes the flow at its `In` end and hands it on at its `Out` end.
//! `example` assembles such a pipeline end to end.

use vstd::prelude::*;

verus! {

/// Private implementation state a flow carries through its stages.
#[derive(Clone, Copy, PartialEq, Eq, Structural, Debug)]
struct Sausage {}

/// A data flow moving through a pipeline.
#[derive(Clone, Copy, PartialEq, Eq, Structural, Debug)]
pub struct Flow {
    _sausage: Sausage,
}

impl Flow {
    /// A fresh flow, before any stage has touched it.
    pub closed spec fn spec_new() -> Flow {
        Flow { _sausage: Sausage {  } }
    }

    fn fresh() -> (r: Flow)
        ensures
            r == Flow::spec_new(),
    {
        Flow { _sausage: Sausage {  } }
    }

    /// Implements a source stage.
    fn source(self) -> (r: Out)
        ensures
            r.spec_flow() == self,
    {
        Out::new(self)
    }

    /// Implements a sink stage.
    fn sink(self) -> (r: Out)
        ensures
            r.spec_flow() == self,
    {
        Out::new(self)
    }

    /// Implements a transfer stage.
    fn transfer(self) -> (r: Out)
        ensures
            r.spec_flow() == self,
    {
        Out::new(self)
    }
}

/// Flow into a stage.
pub struct In {
    flow: Flow,
}

impl In {
    /// The flow this end belongs to.
    pub closed spec fn spec_flow(&self) -> Flow {
        self.flow
    }

    /// Constructs an `In` from a `Flow`.
    pub fn new(flow: Flow) -> (r: In)
        ensures
            r.spec_flow() == flow,
    {
        In { flow }
    }

    /// Consumes the `In` and returns its `Flow`.
    pub fn flow(self) -> (r: Flow)
        ensures
            r == self.spec_flow(),
    {
        self.flow
    }

    /// Defines a transfer from `In` to `Out`.
    pub fn transfer(self) -> (r: Out)
        ensures
            r.spec_flow() == self.spec_flow(),
    {
        self.flow.transfer()
    }

    /// Defines a source.
    pub fn source(self) -> (r: Out)
        ensures
            r.spec_flow() == self.spec_flow(),
    {
        self.flow.source()
    }

    /// Defines a sink.
    pub fn sink(self) -> (r: Out)
        ensures
            r.spec_flow() == self.spec_flow(),
    {
        self.flow.sink()
    }
}

/// Flow out of a stage.
pub struct Out {
    flow: Flow,
}

impl Out {
    /// The flow this end belongs to.
    pub closed spec fn spec_flow(&self) -> Flow {
        self.flow
    }

    /// Constructs an `Out` from a `Flow`.
    pub fn new(flow: Flow) -> (r: Out)
        ensures
            r.spec_flow() == flow,
    {
        Out { flow }
    }

    /// Consumes the `Out` and returns its `Flow`.
    pub fn flow(self) -> (r: Flow)
        ensures
            r == self.spec_flow(),
    {
        self.flow
    }
}

/// The pipeline's source stage.
pub fn source(flow: In) -> (r: Out)
    ensures
        r.spec_flow() == flow.spec_flow(),
{
    flow.source()
}

/// A first transfer stage.
pub fn alpha(flow: In) -> (r: Out)
    ensures
        r.spec_flow() == flow.spec_flow(),
{
    flow.transfer()
}

/// A second transfer stage.
pub fn beta(flow: In) -> (r: Out)
    ensures
        r.spec_flow() == flow.spec_flow(),
{
    flow.transfer()
}

/// The pipeline's sink stage.
pub fn sink(flow: In) -> (r: Out)
    ensures
        r.spec_flow() == flow.spec_flow(),
{
    flow.sink()
}

/// Assembles a whole pipeline: the same flow travels from the source
/// through both transfers into the sink.
pub fn example() {
    let start = Flow::fresh();
    let a = source(In::new(start));
    let b = alpha(In::new(a.flow()));
    let c = beta(In::new(b.flow()));
    let end = sink(In::new(c.flow()));
    assert(end.spec_flow() == start);
}

} // verus!

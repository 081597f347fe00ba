//! Following the configured handoff edge while the daemon runs.

use vstd::prelude::*;

use crate::input::HandoffEdge;
use crate::text::same_text;

verus! {

/// What a look at the configuration brought.
#[derive(Debug)]
pub enum EdgeLoad {
    /// There is no configuration.
    Missing,
    /// The configuration has this edge.
    Loaded(HandoffEdge),
    /// The configuration could not be read or parsed.
    Failed(String),
}

/// What to do about it.
#[derive(Clone, Copy, PartialEq, Eq, Structural, Debug)]
pub enum EdgeStep {
    Nothing,
    /// Publish the new edge.
    Publish(HandoffEdge),
    /// Say that the configuration is ignored.
    Warn,
}

/// The last valid edge, and the failure that was last told.
#[derive(Debug)]
pub struct EdgeWatch {
    pub edge: HandoffEdge,
    pub last_error: Option<String>,
}

impl EdgeWatch {
    /// The failure that was last told.
    pub open spec fn told(self) -> Option<Seq<char>> {
        match self.last_error {
            Some(m) => Some(m@),
            None => None,
        }
    }

    /// Starts with an edge.
    pub fn new(edge: HandoffEdge) -> (watch: Self)
        ensures
            watch.edge == edge,
            watch.told() is None,
    {
        EdgeWatch { edge, last_error: None }
    }

    /// Takes a look's outcome: a new edge is published, a failure keeps the last
    /// valid edge and is told once in a row.
    pub fn on_load(&mut self, load: EdgeLoad) -> (step: EdgeStep)
        ensures
            match load {
                EdgeLoad::Missing => step == EdgeStep::Nothing && final(self).edge == old(
                    self,
                ).edge && final(self).told() is None,
                EdgeLoad::Loaded(edge) => final(self).edge == edge && final(self).told() is None
                    && step == (if edge == old(self).edge {
                    EdgeStep::Nothing
                } else {
                    EdgeStep::Publish(edge)
                }),
                EdgeLoad::Failed(m) => final(self).edge == old(self).edge && final(self).told()
                    == Some(m@) && step == (if old(self).told() == Some(m@) {
                    EdgeStep::Nothing
                } else {
                    EdgeStep::Warn
                }),
            },
    {
        match load {
            EdgeLoad::Missing => {
                self.last_error = None;
                EdgeStep::Nothing
            },
            EdgeLoad::Loaded(edge) => {
                self.last_error = None;
                if edge == self.edge {
                    EdgeStep::Nothing
                } else {
                    self.edge = edge;
                    EdgeStep::Publish(edge)
                }
            },
            EdgeLoad::Failed(m) => {
                let known: bool = match &self.last_error {
                    Some(told) => same_text(told, &m),
                    None => false,
                };
                if known {
                    EdgeStep::Nothing
                } else {
                    self.last_error = Some(m);
                    EdgeStep::Warn
                }
            },
        }
    }
}

} // verus!

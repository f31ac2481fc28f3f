//! Two concrete operation kinds implementing the handler contract. Their
//! completion logic produces the payload captured at construction; what a
//! host does with that outcome (print it, hand it on) stays outside the
//! verified core.

use vstd::prelude::*;

use crate::iocp::EventHandler;

verus! {

/// A socket-poll style operation: its payload is the event bit mask captured
/// when the handler was constructed.
pub struct AfdPoll {
    /// The event bits this poll operation reports on completion.
    pub bits: u32,
}

impl EventHandler for AfdPoll {
    type Completion = u32;

    open spec fn completion_spec(&self) -> u32 {
        self.bits
    }

    fn complete(self) -> (r: u32) {
        self.bits
    }
}

/// A pipe-read style operation: its payload is the text captured when the
/// handler was constructed.
pub struct PipeRead {
    /// The text this read operation delivers on completion.
    pub text: String,
}

impl EventHandler for PipeRead {
    type Completion = String;

    open spec fn completion_spec(&self) -> String {
        self.text
    }

    fn complete(self) -> (r: String) {
        self.text
    }
}

} // verus!

//! What a handler hands back to the connection that asked: the bytes to
//! send, and whether the connection stays open.

use vstd::prelude::*;

verus! {

/// What becomes of the connection once a reply has been flushed.
#[derive(Clone, Copy, Debug, PartialEq, Eq, Structural)]
pub enum Disposition {
    /// The connection waits for the next command.
    KeepOpen,
    /// The connection is torn down.
    Close,
}

/// The answer to one command.
#[derive(Clone, Debug, PartialEq, Eq)]
pub struct Reply {
    /// Bytes to write to the peer; empty when the command gets no answer.
    pub packet: Vec<u8>,
    pub disposition: Disposition,
}

/// A reply as a mathematical value.
pub ghost struct ReplyView {
    pub packet: Seq<u8>,
    pub disposition: Disposition,
}

impl View for Reply {
    type V = ReplyView;

    open spec fn view(&self) -> ReplyView {
        ReplyView { packet: self.packet@, disposition: self.disposition }
    }
}

/// The reply that sends nothing and keeps the connection open.
pub open spec fn silent_reply() -> ReplyView {
    ReplyView { packet: Seq::empty(), disposition: Disposition::KeepOpen }
}

/// The reply that sends nothing and closes the connection.
pub open spec fn closing_reply() -> ReplyView {
    ReplyView { packet: Seq::empty(), disposition: Disposition::Close }
}

} // verus!

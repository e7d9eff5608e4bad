//! What the editor's query primitives answer, and what those answers mean.
//!
//! A query answers with a flag that says whether anything was found and with
//! the identifier it found. An answer that found nothing carries the reserved
//! number [`NO_ID`] where the identifier would be. Nothing beyond this module
//! ever sees that number: an answer is read as an `Option`.

use vstd::prelude::*;
use crate::ids::{AttributeId, InputPinId, Link, LinkId, NodeId, OutputPinId, PinId};

verus! {

/// The number that stands for "no element" in an answer.
pub const NO_ID: i32 = -1;

/// The answer to a query for one element.
#[derive(Clone, Copy, Debug, PartialEq, Eq, Structural)]
pub struct IdReply {
    /// Whether the query found an element.
    pub found: bool,
    /// The element's number, or [`NO_ID`].
    pub id: i32,
}

impl IdReply {
    /// The element that the answer names, if it names one: the flag is set
    /// and the number is not the reserved one.
    pub open spec fn element(self) -> Option<i32> {
        if self.found && self.id != NO_ID {
            Some(self.id)
        } else {
            None
        }
    }

    /// The node that the answer names.
    pub open spec fn node(self) -> Option<NodeId> {
        match self.element() {
            Some(id) => Some(NodeId { id }),
            None => None,
        }
    }

    /// The link that the answer names.
    pub open spec fn link(self) -> Option<LinkId> {
        match self.element() {
            Some(id) => Some(LinkId { id }),
            None => None,
        }
    }

    /// The pin that the answer names.
    pub open spec fn pin(self) -> Option<PinId> {
        match self.element() {
            Some(id) => Some(PinId { id }),
            None => None,
        }
    }

    /// The attribute that the answer names.
    pub open spec fn attribute(self) -> Option<AttributeId> {
        match self.element() {
            Some(id) => Some(AttributeId { id }),
            None => None,
        }
    }

    /// Reads the answer.
    pub fn read(self) -> (r: Option<i32>)
        ensures
            r == self.element(),
    {
        if self.found && self.id != NO_ID {
            Some(self.id)
        } else {
            None
        }
    }
}

/// The answers to the query for the pin that a dropped link started at. The
/// query is asked in two ways; they differ on a link that was pulled off an
/// existing connection before it was dropped.
#[derive(Clone, Copy, Debug, PartialEq, Eq, Structural)]
pub struct DropReply {
    /// The answer that counts only links dragged out of a pin.
    pub dragged: IdReply,
    /// The answer that counts links pulled off a connection as well.
    pub dragged_or_detached: IdReply,
}

impl DropReply {
    /// The answer to the query asked with or without detached links.
    pub open spec fn asked(self, including_detached_links: bool) -> IdReply {
        if including_detached_links {
            self.dragged_or_detached
        } else {
            self.dragged
        }
    }
}

/// The answer to the query for a link that the user has just drawn.
#[derive(Clone, Copy, Debug, PartialEq, Eq, Structural)]
pub struct LinkReply {
    /// Whether a link was drawn.
    pub found: bool,
    pub start_node: i32,
    pub start_pin: i32,
    pub end_node: i32,
    pub end_pin: i32,
    pub created_from_snap: bool,
}

impl LinkReply {
    /// Whether the answer names all four ends of a link.
    pub open spec fn complete(self) -> bool {
        &&& self.found
        &&& self.start_node != NO_ID
        &&& self.start_pin != NO_ID
        &&& self.end_node != NO_ID
        &&& self.end_pin != NO_ID
    }

    /// The link that the answer describes, if it describes one.
    pub open spec fn link(self) -> Option<Link> {
        if self.complete() {
            Some(
                Link {
                    start_node: NodeId { id: self.start_node },
                    end_node: NodeId { id: self.end_node },
                    start_pin: OutputPinId { id: self.start_pin },
                    end_pin: InputPinId { id: self.end_pin },
                    created_from_snap: self.created_from_snap,
                },
            )
        } else {
            None
        }
    }

    /// Reads the answer.
    pub fn read(self) -> (r: Option<Link>)
        ensures
            r == self.link(),
    {
        if self.found && self.start_node != NO_ID && self.start_pin != NO_ID && self.end_node
            != NO_ID && self.end_pin != NO_ID {
            Some(
                Link {
                    start_node: NodeId { id: self.start_node },
                    end_node: NodeId { id: self.end_node },
                    start_pin: OutputPinId { id: self.start_pin },
                    end_pin: InputPinId { id: self.end_pin },
                    created_from_snap: self.created_from_snap,
                },
            )
        } else {
            None
        }
    }
}

/// The answers to the three hover queries of one frame.
#[derive(Clone, Copy, Debug, PartialEq, Eq, Structural)]
pub struct HoverReply {
    pub node: IdReply,
    pub pin: IdReply,
    pub link: IdReply,
}

/// No answer, however its flag and number are set, is read as the reserved
/// number.
pub proof fn lemma_reserved_number_never_read(reply: IdReply)
    ensures
        reply.element() != Some(NO_ID),
        !reply.found ==> reply.element() is None,
{
}

/// No end of a link that is read from an answer is the reserved number, and
/// an answer whose flag is not set describes no link.
pub proof fn lemma_link_ends_are_elements(reply: LinkReply)
    ensures
        !reply.found ==> reply.link() is None,
        reply.link() matches Some(link) ==> {
            &&& link.start_node.id != NO_ID
            &&& link.end_node.id != NO_ID
            &&& link.start_pin.id != NO_ID
            &&& link.end_pin.id != NO_ID
        },
{
}

} // verus!

//! Asking whether the pointer is over an element.

use vstd::prelude::*;
use crate::ids::{AnyPin, InputPinId, LinkId, NodeId, OutputPinId, PinId};
use crate::replies::HoverReply;
use crate::scopes::ScopeNone;

verus! {

/// An identifier whose element the pointer can be over.
pub trait Hoverable {
    /// Whether the answers say that the pointer is over this element.
    spec fn hovered_in(&self, hover: HoverReply) -> bool;

    /// Whether the pointer is over this element, going by `hover`. Hover
    /// queries are legal only where no region is open, which `scope` shows.
    fn is_hovered(&self, scope: &ScopeNone, hover: &HoverReply) -> (r: bool)
        ensures
            r == self.hovered_in(*hover),
    ;
}

impl Hoverable for NodeId {
    open spec fn hovered_in(&self, hover: HoverReply) -> bool {
        hover.node.node() == Some(*self)
    }

    fn is_hovered(&self, scope: &ScopeNone, hover: &HoverReply) -> (r: bool) {
        match hover.node.read() {
            Some(id) => id == self.id,
            None => false,
        }
    }
}

impl Hoverable for LinkId {
    open spec fn hovered_in(&self, hover: HoverReply) -> bool {
        hover.link.link() == Some(*self)
    }

    fn is_hovered(&self, scope: &ScopeNone, hover: &HoverReply) -> (r: bool) {
        match hover.link.read() {
            Some(id) => id == self.id,
            None => false,
        }
    }
}

impl Hoverable for PinId {
    open spec fn hovered_in(&self, hover: HoverReply) -> bool {
        hover.pin.pin() == Some(*self)
    }

    fn is_hovered(&self, scope: &ScopeNone, hover: &HoverReply) -> (r: bool) {
        match hover.pin.read() {
            Some(id) => id == self.id,
            None => false,
        }
    }
}

impl Hoverable for InputPinId {
    open spec fn hovered_in(&self, hover: HoverReply) -> bool {
        hover.pin.pin() == Some(self.pin())
    }

    fn is_hovered(&self, scope: &ScopeNone, hover: &HoverReply) -> (r: bool) {
        match hover.pin.read() {
            Some(id) => id == self.id,
            None => false,
        }
    }
}

impl Hoverable for OutputPinId {
    open spec fn hovered_in(&self, hover: HoverReply) -> bool {
        hover.pin.pin() == Some(self.pin())
    }

    fn is_hovered(&self, scope: &ScopeNone, hover: &HoverReply) -> (r: bool) {
        match hover.pin.read() {
            Some(id) => id == self.id,
            None => false,
        }
    }
}

} // verus!

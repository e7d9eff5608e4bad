//! Identifiers of the elements of a node graph.
//!
//! Every identifier is a signed integer chosen by the caller. Two identifiers
//! of one kind are the same element exactly when their integers are equal.

use vstd::prelude::*;

verus! {

/// Identifies a node.
#[derive(Clone, Copy, Debug, PartialEq, Eq, Hash, Structural)]
pub struct NodeId {
    pub id: i32,
}

/// Identifies a link between two pins.
#[derive(Clone, Copy, Debug, PartialEq, Eq, Hash, Structural)]
pub struct LinkId {
    pub id: i32,
}

/// Identifies an attribute of a node that cannot be connected.
#[derive(Clone, Copy, Debug, PartialEq, Eq, Hash, Structural)]
pub struct AttributeId {
    pub id: i32,
}

/// Identifies a pin that links end at.
#[derive(Clone, Copy, Debug, PartialEq, Eq, Hash, Structural)]
pub struct InputPinId {
    pub id: i32,
}

/// Identifies a pin that links start from.
#[derive(Clone, Copy, Debug, PartialEq, Eq, Hash, Structural)]
pub struct OutputPinId {
    pub id: i32,
}

/// Identifies a pin of either direction. Input and output pins share one
/// numbering, so a pin is named by its integer alone.
#[derive(Clone, Copy, Debug, PartialEq, Eq, Hash, Structural)]
pub struct PinId {
    pub id: i32,
}

impl From<InputPinId> for PinId {
    fn from(pin: InputPinId) -> (r: PinId) {
        PinId { id: pin.id }
    }
}

impl vstd::std_specs::convert::FromSpecImpl<InputPinId> for PinId {
    open spec fn obeys_from_spec() -> bool {
        true
    }

    open spec fn from_spec(pin: InputPinId) -> PinId {
        PinId { id: pin.id }
    }
}

impl From<OutputPinId> for PinId {
    fn from(pin: OutputPinId) -> (r: PinId) {
        PinId { id: pin.id }
    }
}

impl vstd::std_specs::convert::FromSpecImpl<OutputPinId> for PinId {
    open spec fn obeys_from_spec() -> bool {
        true
    }

    open spec fn from_spec(pin: OutputPinId) -> PinId {
        PinId { id: pin.id }
    }
}

/// An identifier that names a pin, whatever the pin's direction.
pub trait AnyPin {
    /// The pin that the identifier names.
    spec fn pin(&self) -> PinId;

    /// The pin that the identifier names.
    fn to_pin(&self) -> (pin: PinId)
        ensures
            pin == self.pin(),
    ;
}

impl AnyPin for PinId {
    open spec fn pin(&self) -> PinId {
        *self
    }

    fn to_pin(&self) -> (pin: PinId) {
        *self
    }
}

impl AnyPin for InputPinId {
    open spec fn pin(&self) -> PinId {
        PinId { id: self.id }
    }

    fn to_pin(&self) -> (pin: PinId) {
        PinId { id: self.id }
    }
}

impl AnyPin for OutputPinId {
    open spec fn pin(&self) -> PinId {
        PinId { id: self.id }
    }

    fn to_pin(&self) -> (pin: PinId) {
        PinId { id: self.id }
    }
}

/// The outline drawn for a pin.
#[derive(Clone, Copy, Debug, PartialEq, Eq, Hash, Structural)]
pub enum PinShape {
    Circle,
    CircleFilled,
    Triangle,
    TriangleFilled,
    Quad,
    QuadFilled,
}

impl PinShape {
    /// The number the editor knows this shape by.
    pub open spec fn code_of(self) -> int {
        match self {
            PinShape::Circle => 0,
            PinShape::CircleFilled => 1,
            PinShape::Triangle => 2,
            PinShape::TriangleFilled => 3,
            PinShape::Quad => 4,
            PinShape::QuadFilled => 5,
        }
    }

    pub fn code(self) -> (r: i32)
        ensures
            r == self.code_of(),
    {
        match self {
            PinShape::Circle => 0,
            PinShape::CircleFilled => 1,
            PinShape::Triangle => 2,
            PinShape::TriangleFilled => 3,
            PinShape::Quad => 4,
            PinShape::QuadFilled => 5,
        }
    }
}

/// A connection that the user has just drawn from an output pin to an input
/// pin. It is reported once; keeping it is up to the caller.
#[derive(Clone, Copy, Debug, PartialEq, Eq, Hash, Structural)]
pub struct Link {
    pub start_node: NodeId,
    pub end_node: NodeId,
    pub start_pin: OutputPinId,
    pub end_pin: InputPinId,
    /// Whether the link snapped to a nearby pin instead of being dropped on it.
    pub created_from_snap: bool,
}

} // verus!

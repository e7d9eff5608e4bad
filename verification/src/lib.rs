//! Scope tokens for a node-and-link graph editor.
//!
//! The editor's drawing calls are only legal inside bracketed regions: a node
//! may only be opened inside the editor region, a pin only inside a node. Each
//! nesting level is a token that offers exactly the operations legal there and
//! that records, in order, the bracket calls issued through it. Every trace a
//! token can hold is proved to open and close its regions in strict nesting
//! order.
//!
//! The answers of the editor's query primitives arrive as plain flag-and-value
//! replies and leave as optional identifiers.

pub mod calls;
pub mod hover;
pub mod ids;
pub mod nesting;
pub mod replies;
pub mod scopes;

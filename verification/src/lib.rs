//! Attribute propagation and merge engine for a component-tree templating model.
//!
//! A call site collects attribute directives in a bundle; the bundle travels
//! inward through component boundaries and is merged, at the node that renders,
//! with the directives that the node declares itself.

pub mod boundary;
pub mod bundle;
pub mod changes;
pub mod compose;
pub mod copy;
pub mod decimal;
pub mod forward;
pub mod interceptor;
pub mod laws;
pub mod merge;
pub mod nesting;
pub mod node;
pub mod resolve;
pub mod table;
pub mod text;

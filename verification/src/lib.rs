//! Two cooperating mechanisms for tree-shaped data: a recursive composite of
//! leaves and aggregates behind one interface, and a double-dispatch visitor
//! that brings new operations to a fixed set of node kinds.

pub mod composite;
pub mod utils;
pub mod visitor;

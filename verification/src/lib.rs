//! Generation of EDA tool scripts from a tree of HDL source groups.
//!
//! The library models a hierarchy of hardware source files (groups with
//! nested sub-groups, include directories, preprocessor defines and target
//! applicability), filters it by target and package, flattens it into an
//! ordered list, splits each group's files into homogeneous compile batches,
//! aggregates global configuration, and assembles the context from which a
//! backend script is rendered.

#![verifier::loop_isolation(false)]

pub mod batch;
pub mod context;
pub mod defines;
pub mod filter;
pub mod format;
pub mod flatten;
pub mod iset;
pub mod model;
pub mod order;
pub mod packages;
pub mod paths;
pub mod pipeline;
pub mod render;


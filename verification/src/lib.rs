//! Reactive scene-graph runtime for a declarative UI engine, together with
//! the compile-time definition model that feeds it.
//!
//! The runtime walks a tree of render-node instances once per frame,
//! propagating a lexical scope stack through component boundaries, expanding
//! control-flow nodes (`Repeat`, `Conditional`, `Slot`) into concrete
//! children, and emitting minimal change patches for a host renderer.

use vstd::prelude::*;

pub mod codegen;
pub mod controlflow;
pub mod coproduct;
pub mod engine;
pub mod expressions;
pub mod identifiers;
pub mod manifest;
pub mod patches;
pub mod reexports;
pub mod registry;
pub mod rendering;
pub mod runtime;
pub mod text;

verus! {

} // verus!

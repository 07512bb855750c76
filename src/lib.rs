//! Project and build management for compiled-language projects: dependency
//! resolution under update policies, inheritable build configurations,
//! incremental source selection and the compile/package pipeline.
use vstd::prelude::*;

pub mod dependency;
pub mod text;
pub mod document;
pub mod environment;
pub mod compiler;
pub mod task;
pub mod merge;
pub mod configuration;
pub mod project;
pub mod metadata;
pub mod source;
pub mod manifest;
pub mod pipeline;
pub mod maven;
pub mod settings;
pub mod java;

verus! {

} // verus!

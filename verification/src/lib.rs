//! Build-time tooling that keeps compile-time configuration consistent across
//! several independently compiled native build units.
//!
//! Each unit owns a [`defs::Cfg`] store of propagated preprocessor
//! definitions, imported from upstream units through an environment-variable
//! convention and exported for downstream units after compilation.  Before
//! compiling, a unit stages the subset of a shared source tree it needs into
//! an isolated per-unit output root ([`staging`]), so that no two units ever
//! share raw paths or header namespaces.  [`pipeline::run_unit`] sequences one
//! unit's whole invocation: import, stage, configure, register compile
//! inputs, and export.

pub mod ccbuild;
pub mod codec;
pub mod defs;
pub mod error;
pub mod filestore;
pub mod pipeline;
pub mod staging;
pub mod text;
pub mod unit;

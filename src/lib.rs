//! Declarative modpack projects: resolving mod references into concrete
//! artifacts and reconciling a mods directory with the desired artifacts.
//!
//! - [`source`] resolves a mod's reference (a direct URL or a registry
//!   version) into a [`source::BuildSource`], as a state machine whose
//!   requests [`modrinth`] builds.
//! - [`sync`] plans the reconciliation of a mods directory with the desired
//!   artifacts, and states what the plan achieves.
//! - [`manifest`], [`project`] and [`toml_format`] model the project and its
//!   files; [`pack`], [`format`], [`parse`], [`registry`], [`modpack`] and
//!   [`mrpack`] model the `niter.toml` / `niter.json` layouts, the short
//!   registry records and the `.mrpack` index.

pub mod manifest;
pub mod modrinth;
pub mod project;
pub mod source;
pub mod sync;
pub mod toml_format;

pub mod format;
pub mod modpack;
pub mod mrpack;
pub mod pack;
pub mod parse;
pub mod registry;

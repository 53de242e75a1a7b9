//! Generates memory-safe Rust bindings from the manifest of a compiled
//! Futhark library.
//!
//! The manifest model ([`manifest`]) describes entry points and types; a
//! naming policy ([`naming`]) turns raw identifiers into Rust identifiers; the
//! type catalog ([`catalog`]) names every type before anything is emitted; and
//! the Rust emitter ([`rust`]) runs the phases of a generation and plans, for
//! each template of the bindings, what it is filled with.

pub mod backend;
pub mod catalog;
pub mod error;
pub mod generate;
pub mod manifest;
pub mod naming;
pub mod package;
pub mod rust;

pub use backend::Backend;
pub use catalog::Catalog;
pub use error::Error;
pub use generate::{generate, Generate};
pub use manifest::Manifest;
pub use naming::{DefaultNamer, Namer};
pub use package::Package;
pub use rust::Rust;

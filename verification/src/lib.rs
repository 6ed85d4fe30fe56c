//! Programming by Navigation: an interactive synthesis session in which a
//! decider repeatedly picks one of the steps that a [`StepProvider`] offers
//! for the current working expression.
//!
//! The four capabilities ([`Timer`], [`Step`], [`ValidityChecker`],
//! [`StepProvider`]) are implemented by the integrator. Each carries a
//! relation that says which results its operation may give; the contracts of
//! the combinators ([`CompoundProvider`], [`FallbackProvider`]) and of the
//! [`Controller`] are stated over those relations.

pub mod capability;
pub mod compound;
pub mod controller;
pub mod fallback;

pub use capability::{listing, Step, StepProvider, Timer, ValidityChecker};
pub use compound::CompoundProvider;
pub use controller::Controller;
pub use fallback::FallbackProvider;

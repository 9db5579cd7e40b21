//! Core of a staged regression plot: colours and styles of the traces, the
//! declarative plot model, and the engine that reveals the plot step by step.

pub mod engine;
pub mod error;
pub mod model;
pub mod palette;

//! Core of a peer-to-peer verifiable-computation node: a content-addressed
//! receipt store, a peer registry with liveness bookkeeping, the circuit
//! identity model, and the orchestration that ties a compute request to
//! storage and broadcast. Transport, persistence I/O and the proving engine
//! are external collaborators; their outcomes enter the library as plain
//! values and every decision taken on them is verified.

pub mod circuits;
pub mod config;
pub mod errors;
pub mod models;
pub mod monitor;
pub mod node;
pub mod registry;
pub mod routes;
pub mod store;

pub use circuits::compute_hypotenuse;
pub use circuits::sqrt_u32;

//! Startup logic of a small firmware-distribution service: the filters that
//! decide which log events reach which sink, the layered pipeline that routes
//! events, the guarded one-time installation of that pipeline, the bootstrap
//! state machine that picks and binds the listening port, and the static
//! payloads of the HTTP endpoints.
pub mod level;
pub mod filter;
pub mod error;
pub mod pipeline;
pub mod telemetry;
pub mod bootstrap;
pub mod routes;
pub mod env_filter;

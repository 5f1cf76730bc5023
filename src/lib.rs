//! Verified core of a self-hosted camera-monitoring server: the administrator's
//! password verifier, signed session tokens, the shared configuration store and
//! the decisions behind every HTTP route and listener.

pub mod assets;
pub mod context;
pub mod routes;
pub mod secrets;
pub mod server;
pub mod text;
pub mod token;

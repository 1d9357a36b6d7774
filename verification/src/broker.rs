//! The credential broker: child processes get stand-ins for credentials, and
//! requests to the right hosts get the credentials back.
pub mod binding_laws;
pub mod credentials;
pub mod dummy;
pub mod dummy_laws;
pub mod environment;
pub mod laws;
pub mod requests;

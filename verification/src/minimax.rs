//! The MiniMax model provider.
pub mod catalog;
pub mod provider;

//! The core of a credential store: typed secrets, the text lines they are kept
//! as, and the decisions around the service that holds those lines and the
//! hardware key that protects them.
pub mod api;
pub mod backend;
pub mod backend_engram;
pub mod error;
pub mod laws;
pub mod line;
pub mod order;
pub mod outside;
pub mod removal;
pub mod secret;
pub mod store;
pub mod text;
pub mod value;
pub mod yubikey;

//! What the library promises, said of what goes in and what comes out.
pub mod choices;
pub mod device;
pub mod lines;
pub mod lists;
pub mod secrets;
pub mod service;
pub mod texts;
pub mod values;
pub mod vault;

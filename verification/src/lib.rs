//! Fixed-layout codec for a persistent user account record.

pub mod error;
pub mod layout;
pub mod lemmas;
pub mod patch;
pub mod slots;
pub mod state;
pub mod tracker;

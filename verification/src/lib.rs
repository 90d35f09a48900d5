//! Core of a small account service: HMAC-based capability tokens that
//! authorize account creation and password resets, and a user directory
//! that enforces a unique-email invariant on insertion.

pub mod codec;
pub mod html;
pub mod user;
pub mod verify;

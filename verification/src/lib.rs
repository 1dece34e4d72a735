//! Signed JSON Web Tokens from a JSON Web Key and a handful of claims.
//!
//! The crate selects a signing algorithm that fits the key, assembles the
//! protected header and the claims payload, and hands both to `josekit` for the
//! compact serialization. What each step returns is stated in its contract.

pub mod args;
pub mod claims;
pub mod compact;
pub mod error;
pub mod header;
pub mod key;
pub mod payload;
pub mod select;
pub mod text;
pub mod token;

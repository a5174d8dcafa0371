//! A small registry of generated art pieces.
//!
//! `state` turns a block of entropy bytes into the numeric payload of a
//! piece; `store` keeps the pieces under unique, increasing identifiers and
//! lets only a piece's creator transfer or delete them; `laws` states what
//! holds across sequences of store operations.
pub mod laws;
pub mod state;
pub mod store;

//! A persistent catalog of songs, owners, licensees and licenses.
//!
//! The catalog keeps four tables and one identifier counter in stable memory.
//! Mutation of a song or of its licenses is reserved to the song's registered
//! owner, and the id lists that owners and licensees carry are kept in step with
//! the tables by the operations of [`integrity`].

pub mod text;
pub mod types;
pub mod stable;
pub mod wire;
pub mod records;
pub mod model;
pub mod store;
pub mod lists;
pub mod integrity;
pub mod handlers;
pub mod laws;

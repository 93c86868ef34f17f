//! The provider's data shapes, as plain values.

pub mod album;
pub mod artist;
pub mod playlist;
pub mod track;

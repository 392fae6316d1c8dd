//! Codec for the player block of Genie-engine recorded games, together with
//! the embedded random-map-info structure and the player-colour table.
//!
//! The codec works over in-memory byte buffers: decoding pulls from a
//! [`reader::Reader`] positioned at the start of a block, encoding appends to a
//! [`reader::Writer`]. All multi-byte scalars are little-endian; 32-bit floats
//! are carried as their raw IEEE-754 bit patterns so that every record is a
//! lossless mirror of the on-disk bytes.

pub mod bytes;
pub mod color_table;
pub mod context;
pub mod diplomacy;
pub mod error;
pub mod gaia;
pub mod history;
pub mod marker;
pub mod peer;
pub mod player;
pub mod random_map;
pub mod reader;
pub mod tech;
pub mod userpatch;
pub mod visible;

//! Primitives, parsing code and cache file helpers for Halo: Combat Evolved tag data.

pub mod crc32;
pub mod text;
pub mod error;
pub mod primitive;
pub mod endian;
pub mod parse;
pub mod tag;
pub mod engine;
pub mod map;
pub mod decompression;
pub mod tag_array;
pub mod dynamic;
pub mod resource;
pub mod data;

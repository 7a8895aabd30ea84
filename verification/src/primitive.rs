//! Primitive types used in tag data.

pub mod group;
pub mod path;
pub mod data;
pub mod range;
pub mod utf16;
pub mod string32;
pub mod reflexive;
pub mod vector;
pub mod color;

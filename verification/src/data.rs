//! Data formats used alongside tags.

pub mod bitmap;
pub mod sound;

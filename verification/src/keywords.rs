//! The keywords that this library compiles.

pub mod assertion;
pub mod discriminator;
pub mod max_length;
pub mod one_of;
pub mod required;
pub mod type_;

//! The configuration API: messages exchanged with a config client over
//! a byte stream, and the tag and layout operations built on them.

pub mod layout;
pub mod msg;
pub mod tag;

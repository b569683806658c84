//! Codec for the HTTP/2 SETTINGS and PRIORITY control frames.

pub mod wire;
pub mod head;
pub mod priority;
pub mod settings;
pub mod inline_vec;
pub mod buffer;

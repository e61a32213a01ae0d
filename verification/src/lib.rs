//! Power readings of a Shelly device: from the bytes of its status reply to
//! the text lines that a metrics collector scrapes.

pub mod channel;
pub mod extract;
pub mod json;
pub mod laws;
pub mod probe;
pub mod readings;

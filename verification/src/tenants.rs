pub mod endpoints;
pub mod error;
pub mod internal;
pub mod structures;

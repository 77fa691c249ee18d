pub mod endpoints;
pub mod errors;
pub mod internal;
pub mod structures;

pub mod cache_updater;
pub mod hashing;
pub mod timezone;

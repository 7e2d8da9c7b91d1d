pub mod domain;
pub mod laws;
pub mod matcher;
pub mod patterns;
pub mod ruleset;
pub mod stores;

pub use domain::extract_domain;
pub use matcher::AdBlocker;

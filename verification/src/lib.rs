pub mod laws;
pub mod repositories;

pub mod laws;
pub mod models;

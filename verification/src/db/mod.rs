pub mod models;
pub mod queries;

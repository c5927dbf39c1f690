pub mod auth;
pub mod bugs;
pub mod errors;
pub mod filter;
pub mod gen;
pub mod models;
pub mod projects;
pub mod store;

pub mod ids;
pub mod models;
pub mod error;
pub mod tables;
pub mod store;
pub mod memory_store;
pub mod controller;
pub mod agent;
pub mod laws;

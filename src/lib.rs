pub mod api;
pub mod auth;
pub mod config;
pub mod model;
pub mod query;
pub mod schedule;
pub mod task;
pub mod worker;

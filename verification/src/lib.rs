//! The decisions of a task-management backend: how it starts, whom it lets
//! in, and what its resource handlers do to the store.

pub mod auth;
pub mod config;
pub mod error;
pub mod health;
pub mod route;
pub mod service;
pub mod startup;
pub mod state;
pub mod store;
pub mod task;
pub mod text;
pub mod user;

//! Sentinel: the decision logic of a local host service monitor.

pub mod text;
pub mod sort;
pub mod models;
pub mod listeners;
pub mod services;
pub mod watchlist;
pub mod health;
pub mod dashboard;
pub mod metrics;
pub mod thermals;
pub mod laws;

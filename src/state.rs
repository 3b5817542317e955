//! In-memory resource stores, one per resource domain.
pub mod auth;
pub mod buckets;
pub mod issues;
pub mod manager;
pub mod objects;
pub mod projects;
pub mod translations;
pub mod webhooks;

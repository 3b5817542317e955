//! A mock HTTP API server library: it synthesizes routes from OpenAPI
//! documents, resolves example responses, and simulates resource stores.

pub mod config;
pub mod dash;
pub mod dispatch;
pub mod endpoints;
pub mod gate;
pub mod keyed;
pub mod loader;
pub mod openapi;
pub mod resolver;
pub mod routes;
mod stamps;
pub mod state;
pub mod text;

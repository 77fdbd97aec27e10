//! Verified core of the PMVHeaven desktop client.
pub mod models;
pub mod text;
pub mod sync;
pub mod queue;
pub mod filters;
pub mod proxy;
pub mod updates;
pub mod crypto;
pub mod account;
pub mod paths;
pub mod player;
pub mod repo;
pub mod api;
pub mod labels;
pub mod gfx;

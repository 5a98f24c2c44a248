//! Request-phase plugins of a reverse proxy: response caching, CSRF tokens
//! and key authentication, with the decisions of each stated and proved.
pub mod cache;
pub mod config;
pub mod csrf;
pub mod duration;
pub mod ip_rules;
pub mod key_auth;
pub mod outside;
pub mod plugin;
pub mod text;

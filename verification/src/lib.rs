//! Corpex — Companies House corporate investigation library.
pub mod text;
pub mod types;
pub mod prompts;
pub mod network;
pub mod group;
pub mod config;
pub mod view;
pub mod xhtml;
pub mod client;
pub mod pdf;
pub mod pipeline;
pub mod analysis;
pub mod keyed;
pub mod session;
pub mod provider;
pub mod investigate;
pub mod export;
pub mod cache;
pub mod panels;

//! Search bot for Wikimedia Commons.

pub mod bot;
pub mod cli;
pub mod commons;
pub mod commons_cache;
pub mod config;
pub mod conversation;
pub mod cookies;
pub mod escaping;
pub mod idempotency;
pub mod laws;
pub mod loading;
pub mod metadata;
pub mod models;
pub mod numbers;
pub mod ordering;
pub mod pagination;
pub mod parser;
pub mod preferences;
pub mod previews;
pub mod rounding;
pub mod settings;
pub mod stats;
pub mod telegram;
pub mod text;
pub mod wikidata;

//! An environment switcher's library: recipes offered by cookbook plugins,
//! their priority-ordered aggregation, the recipe cache that a background
//! daemon keeps fresh, the daemon's lifecycle decisions, and the commands
//! that consume the cache or fall back to asking the cookbooks directly.
pub mod adapter;
pub mod aggregate;
pub mod client;
pub mod commands;
pub mod config;
pub mod consumer;
pub mod context;
pub mod daemon;
pub mod environment;
pub mod github;
pub mod notifier;
pub mod plugin;
pub mod recipe;
pub mod selection;
pub mod text;
pub mod usage;
pub mod workspace;

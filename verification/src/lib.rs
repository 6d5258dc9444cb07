//! Verified core of an event-driven game catalogue: the domain-event model,
//! its JSON wire codec, the publish buffer, the per-service dispatch logic,
//! the idempotent synchronization handlers, and the rating aggregation that
//! keeps a search index eventually consistent with the relational stores.
pub mod admin;
pub mod auth;
pub mod codec;
pub mod dispatch;
pub mod errors;
pub mod events;
pub mod game;
pub mod publish;
pub mod search;
pub mod settings;
pub mod store;
pub mod user;
pub mod validation;

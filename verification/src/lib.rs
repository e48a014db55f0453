//! Core of a chat-platform harvester: the rules by which realtime events and
//! paginated history are turned into idempotent store operations and media
//! downloads, and by which sessions are supervised and rotated.

pub mod cli;
pub mod columns;
pub mod config;
pub mod database;
pub mod downloader;
pub mod event_processor;
pub mod events;
pub mod handler;
pub mod launch;
pub mod message_type;
pub mod model;
pub mod ops;
pub mod pipeline_laws;
pub mod rows;
pub mod scraper;
pub mod snowflake;
pub mod store_laws;
pub mod table;
pub mod text;

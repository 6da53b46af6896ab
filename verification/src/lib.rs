//! A statistics service for game servers: it frames and checks what plugins
//! send, journals it, queues it and decides what is written to the database.

pub mod clock;
pub mod completion;
pub mod config;
pub mod connection;
pub mod database;
pub mod dedupe;
pub mod event;
pub mod frame;
pub mod ingest;
pub mod journal;
pub mod outcome;
pub mod queue;
pub mod replay;
pub mod schema;
pub mod stats;
pub mod text;
pub mod tickrate;
pub mod writer;
pub mod written;

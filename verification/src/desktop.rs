//! Core of the desktop application: configuration, database records, the
//! service framework and the event bus.

pub mod config;
pub mod database;
pub mod events;
pub mod service;

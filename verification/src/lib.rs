//! Room, session, upload and account logic of a synchronized watch-party service.

pub mod text;
pub mod ws_message;
pub mod runtime;
pub mod tables;
pub mod room_manager;
pub mod error;
pub mod upload;
pub mod models;
pub mod config;
pub mod credentials;
pub mod auth;
pub mod room_requests;
pub mod session;
pub mod file_hash;
pub mod mpv;

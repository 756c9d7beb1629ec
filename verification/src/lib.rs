//! The rules of an image studio server: credits, tasks, files, accounts and upkeep.

pub mod account;
pub mod admin;
pub mod auth;
pub mod classification;
pub mod clock;
pub mod config;
pub mod db;
pub mod encoding;
pub mod images;
pub mod json;
pub mod model;
pub mod observability;
pub mod paging;
pub mod presence;
pub mod request;
pub mod retention;
pub mod security;
pub mod table;
pub mod text;
pub mod token;

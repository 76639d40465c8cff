pub mod json;
pub mod text;
pub mod table;
pub mod time;
pub mod validate;
pub mod state;
pub mod lists;
pub mod limits;
pub mod prison;
pub mod json_path;
pub mod chat;
pub mod room;
pub mod search;
pub mod relations;
pub mod admin;
pub mod account_update;
pub mod session;
pub mod protocol;
pub mod config;
pub mod auth;
pub mod query;
pub mod summary;
pub mod db;
pub mod routing;
pub mod updates;
pub mod sectors;
pub mod listing;

pub mod auth;
pub mod books;
pub mod commands;
pub mod config;
pub mod conversations;
pub mod database;
pub mod flow;
pub mod html;
pub mod links;
pub mod markdown;
pub mod media;
pub mod media_assets;
pub mod messaging;
pub mod models;
pub mod paths;
pub mod prompt;
pub mod providers;
pub mod reader;
pub mod registry;
pub mod render;
pub mod session;
pub mod text;
pub mod transcript;
pub mod web_books;
pub mod workspace;

pub mod text;
pub mod weburl;
pub mod xml;
pub mod errors;
pub mod cli;
pub mod models;
pub mod checker;
pub mod exclude;
pub mod parser;
pub mod sitemap;
pub mod crawler;
pub mod tui;

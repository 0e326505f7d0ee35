pub mod cache;
pub mod config;
pub mod link;
pub mod outside;
pub mod text;

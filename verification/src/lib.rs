pub mod catalog;
pub mod commands;
pub mod errors;
pub mod index;
pub mod models;
pub mod order;
pub mod parser;
pub mod paths;
pub mod presentation;
pub mod resolver;
pub mod search;
pub mod store;
pub mod text;
pub mod window;
pub mod workspace;

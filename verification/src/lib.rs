pub mod error;
pub mod ordering;
pub mod text;
pub mod posix_path;
pub mod schema;
pub mod services;
pub mod models;
pub mod commands;

//! Request-handling logic of the peeker home-server file manager.

pub mod auth;
pub mod catalog;
pub mod decimal;
pub mod paths;
pub mod status;
mod text;
pub mod upload;

//! Site Checker's core: the site list and its rules, URL shaping, HTTP status
//! classification, the check and scheduling decisions, and the login-item logic.

pub mod text;
pub mod model;
pub mod store;
pub mod check;
pub mod commands;
pub mod engine;
pub mod autostart;

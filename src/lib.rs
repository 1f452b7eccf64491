//! A terminal to-do list: the application state, the key dispatch that drives
//! it, the JSON text it is persisted as, and the screen geometry it is drawn in.

pub mod app;
pub mod store;
pub mod layout;

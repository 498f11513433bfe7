//! A multi-user to-do list service: credentials, bearer tokens, access
//! control and the task store, with every rule stated as a contract.

pub mod access;
pub mod config;
pub mod database;
pub mod error;
pub mod handlers;
pub mod history;
pub mod models;
pub mod order;
pub mod password;
pub mod time;
pub mod todos;
pub mod token;
pub mod users;

//! The backend API: request and response types, query strings, paths and
//! the client's decisions.
pub mod query;
pub mod client;
pub mod department;
pub mod employee;
pub mod position;
pub mod organization;
pub mod contacts;
pub mod auth;

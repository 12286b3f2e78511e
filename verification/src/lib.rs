//! Access control and checkout lifecycle of a lending library: session
//! tokens with a fixed lifetime, role checks, and a ledger that keeps every
//! book in the custody of at most one borrower.

pub mod model;
pub mod outside;
pub mod repository;
pub mod ledger;
pub mod token;
pub mod user;
pub mod auth;
pub mod registry;
pub mod handler;
pub mod laws;

//! Identity, session and authorization core of a multi-user link shortener.
//!
//! Every decision the service takes is a verified function of this crate:
//! who a session token stands for, and which account and link operations
//! an identity may perform. The tables of this crate are a model of the
//! storage, kept in memory: the operations are proved against it, and a
//! service that keeps its rows elsewhere takes the same decisions by the
//! functions that the operations are made of.

pub mod auth;
pub mod catchers;
pub mod crypto;
pub mod lifecycle;
pub mod models;
pub mod outcome;
pub mod ownership;
pub mod repository;
pub mod routes;
pub mod shortener;
pub mod static_files;
pub mod text;

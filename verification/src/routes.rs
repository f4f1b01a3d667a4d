//! The operations of the service, one function for each request.

pub mod client;
pub mod links;
pub mod users;

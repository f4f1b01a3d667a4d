//! The records the service keeps, and the tables that hold them.

pub mod links;
pub mod users;

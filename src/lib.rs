//! Request routing for RPC services sharing one listener, and recovery of
//! failed calls into status responses.

pub mod recover;
pub mod route;
pub mod status;

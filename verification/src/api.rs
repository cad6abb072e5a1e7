//! Endpoints and the way a call to one is carried out.

pub mod configuration;
pub mod endpoint;
pub mod engine;
pub mod path;
pub mod query;
pub mod request;
pub mod response;

//! Structured output from a chat-completion provider: a schema for the target
//! type made fit for the provider's strict mode, the request that carries it,
//! and the reading of the response envelope.
use vstd::prelude::*;

pub mod json;
pub mod schema;
pub mod client;
pub mod config;

pub use json::Json;
pub use schema::{Schema, TitlePolicy, get_schema, schema_name};
pub use client::{
    ClientError, Message, ProtocolFault, Role, completion_content, handle_response, request_body,
};
pub use config::{Config, ConfigError};

verus! {

} // verus!

//! A kit for writing providers of infrastructure resources.
//!
//! A provider describes its resources and data sources by schemas, checks
//! configurations against them, plans the changes between two states and
//! carries them out, all behind a protocol of remote calls. This library
//! holds what a provider and its server decide: the schema model, the
//! validation engine, the plan-diff engine, how the results of a provider
//! become messages on the wire, and the order of the phases of a server.

pub mod name_map;
pub mod number;
pub mod json;
pub mod text;
pub mod schema;
pub mod validation;
pub mod types;
pub mod diff;
pub mod laws;
pub mod error;
pub mod codec;
pub mod protocol;
pub mod schema_message;
pub mod server;
pub mod testing;

pub use diff::diff;
pub use error::ProviderError;
pub use json::JsonValue;
pub use schema::ProviderSchema;
pub use server::ServeOptions;
pub use types::{
    AttributeChange, ImportedResource, PlanResult, ProviderMetadata, ServerCapabilities,
    HANDSHAKE_PREFIX, PROTOCOL_VERSION,
};
pub use validation::{is_valid, validate, validate_result};

pub use serde_json;
pub use tonic;

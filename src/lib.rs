//! A client for a plugin-repository search API: wire codes for categories and
//! sort orders, a query builder that renders canonical parameters, and a
//! decoder from a parsed JSON value to plugin entities.

pub mod text;
pub mod codec;
pub mod query;
pub mod json;
pub mod entity;
pub mod decode;

pub use codec::{CodecError, PluginCategory, SortType};
pub use decode::{decode_response, DecodeError, DecodeReason};
pub use entity::{Channel, Dependency, Plugin, User, Version};
pub use json::{Json, JsonNumber};
pub use query::{search, QueryBuildError, SearchQuery};

//! Query-string decoding for HTTP requests: a raw query string becomes a
//! name-to-value map, which is bound once to a request-scoped context and read
//! back by handlers through a typed accessor.

mod decode;
mod ext;
mod parse;
mod query_map;

pub use decode::decode_query;
pub use ext::{RequestContext, RequestQueryExt};
pub use parse::TextParsable;
pub use query_map::QueryMap;

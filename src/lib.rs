//! Cache decisions for HTTP responses: whether a response may be stored, how
//! long it stays fresh, whether a stored response answers a new request, and
//! how a stored response is revalidated with the origin server.
//!
//! Header names and values are byte strings; times are whole seconds since
//! 1970-01-01T00:00:00Z, handed in by the caller.
pub mod date;
pub mod directives;
pub mod filter;
pub mod headers;
pub mod laws;
pub mod matching;
pub mod names;
pub mod policy;
pub mod revalidation;
pub mod snapshot;
pub mod text;

pub use directives::{parse_cache_control, CacheDirectives};
pub use headers::Headers;
pub use policy::{CacheOptions, CachePolicy, RequestSnapshot, ResponseSnapshot};

//! A declarative, zero-copy HTTP request router.
//!
//! A [`Schema`] lists named route variants, each bound to method and path
//! pattern pairs, and is matched against the method and path of a request.
//! [`parse_request`] splits a raw request into its method, path, query,
//! protocol version and trailing bytes.

pub mod decimal;
pub mod declare;
pub mod from_route;
pub mod http_version;
pub mod leaf;
pub mod method;
pub mod path;
pub mod prefix;
pub mod router;
pub mod router_result;
pub mod scan;
pub mod schema;
pub mod value;

pub use declare::{Attribute, Declaration, Payload};
pub use from_route::FromRoute;
pub use http_version::HttpVersion;
pub use leaf::{into_paths_by_method, Field, Leaf, SchemaError};
pub use method::Method;
pub use path::{gather, PathPattern, PathSegment};
pub use prefix::Prefix;
pub use router::{parse_request, Error, RequestLine, Router};
pub use router_result::RouterResult;
pub use scan::{find_byte, find_bytes};
pub use schema::{Route, Schema, Variant};
pub use value::{FieldKind, Value};

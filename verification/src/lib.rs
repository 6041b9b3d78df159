//! Client-side adaptation layer for the CouchDB HTTP/JSON protocol.
//!
//! The library turns what an application knows, the database, document or
//! view that it means and the revision that it holds, into what the server
//! wants to hear, and what the server answers into one error of a closed
//! set. Its three parts are revisions (`revision`), paths of resources
//! (`path`), and the judging of responses (`response`, `error`).

pub mod design;
pub mod error;
pub mod json;
pub mod media;
pub mod path;
pub mod record;
pub mod response;
pub mod revision;
pub mod status;
pub mod text;

pub use design::{Design, DesignBuilder, ViewFunction, ViewName};
pub use error::{
    ChillError, ErrorCause, ErrorResponse, PathParseErrorKind, RevisionParseErrorKind,
    TransportErrorKind,
};
pub use media::MediaType;
pub use path::{ResourceKind, ResourcePath};
pub use response::{classify, Intent, JsonResponse, Payload};
pub use revision::RevisionId;
pub use status::{StatusClass, StatusCode};

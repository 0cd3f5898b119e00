//! A minimal static-file HTTP server: request-line parsing, confinement of
//! requested paths to a web root, and the decisions of the GET handler, which
//! the surrounding program carries out against the network and the filesystem.

pub mod guarantees;
pub mod path;
pub mod request;
pub mod response;
pub mod server;

pub use path::{is_within, join_request_path, request_segments};
pub use request::{method_of, parse_request_line, Method, Request};
pub use response::{binary_header, decimal, forbidden, not_found, not_implemented, ok_with_body};
pub use server::{Action, EntryKind, Event, HttpServer, Phase, CHUNK_SIZE};

//! Request-execution core of an HTTP client for mobile applications.
//!
//! The core sits between a foreign-function boundary and an HTTP transport.
//! It holds what wraps the transport: the fingerprint of a request, a bounded
//! response cache, the tracker that lets identical requests share one
//! execution, the admission controller that caps the calls in flight, the
//! pool of response buffers with the ledger of the buffers handed across the
//! boundary, and the decisions of the worker that drives it all.

use vstd::prelude::*;

pub mod admission;
pub mod buffer;
pub mod cache;
pub mod client_config;
pub mod context;
pub mod dedup;
pub mod engine;
pub mod error;
pub mod fingerprint;
pub mod header_utils;
pub mod http_client;
pub mod ledger;
pub mod method_utils;
pub mod models;
pub mod parser;
pub mod string_map;
pub mod text;
pub mod utils;
pub mod worker;

pub use buffer::{get_buffer, return_buffer, Buffer, BufferCap};
pub use client_config::ClientConfig;
pub use context::ClientContext;
pub use engine::Engine;
pub use error::HttpClientError;
pub use header_utils::HeaderUtils;
pub use method_utils::MethodUtils;
pub use models::{HttpError, HttpRequest, HttpResponse};

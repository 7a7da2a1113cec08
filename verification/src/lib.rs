/// Defines the arguments required to start the server.
pub mod config;

/// A common error type for all request handlers, and its uniform
/// translation into an HTTP response.
pub mod error;

/// Rendered HTTP responses and the decimal formatting they need.
pub mod response;

/// The handlers of the application: the health check and the fallback
/// for unmatched paths.
pub mod routes;

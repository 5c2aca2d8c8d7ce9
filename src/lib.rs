//! Template-driven HTTP header mutation: rule sets of (header name, template)
//! pairs are rendered against the live request and response headers, and the
//! results are handed back to the proxy host as header writes.

pub mod config;
pub mod filter;
pub mod headers;
pub mod template;
pub mod text;

pub use config::{Direction, FilterConfig, PerRouteConfig, PhaseError, Rule};
pub use filter::{Filter, HeadersStatus, PhaseOutcome};
pub use headers::{decode_headers, HeaderDecodeError, HeaderMap};
pub use template::{header, render, request_header, RenderContext, RenderError};
pub use text::{substring, SubstringError};

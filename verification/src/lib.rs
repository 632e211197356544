//! A local reverse proxy core: routing of `/{identifier}/v1/{subpath}`
//! requests to configured upstream providers, with credential injection,
//! header sanitization and an optional JSON model-field rewrite, plus the
//! start/stop lifecycle that keeps at most one listener running.

pub mod config;
pub mod errors;
pub mod events;
pub mod headers;
pub mod lifecycle;
pub mod route;
pub mod text;
pub mod transform;

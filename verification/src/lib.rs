//! A Model Context Protocol (MCP) session kernel: JSON-RPC 2.0 message
//! codecs, request/response correlation, lifecycle and capability
//! negotiation, method registries for tools, resources and prompts, and a
//! policy interceptor with consent, rate limiting, auditing and secret
//! redaction.
//!
//! Transports (stdio lines, WebSocket frames, HTTP+SSE) and provider
//! implementations that perform I/O live outside this crate; the kernel
//! here works on plain values and is verified.

pub mod json;
pub mod parse;
pub mod rpc;
pub mod codec;
pub mod version;
pub mod framing;
pub mod types;
pub mod capabilities;
pub mod messages;
pub mod session;
pub mod client;
pub mod order;
pub mod tools;
pub mod resources;
pub mod prompts;
pub mod policy;
pub mod security;
pub mod encode;
pub mod server;
pub mod providers;
pub mod metrics;
pub mod consent;
pub mod builder;
pub mod base64;
pub mod roundtrip;

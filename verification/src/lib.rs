//! Verified core of the LibreOffice AI desktop assistant: configuration
//! defaults, the JSON model used to read engine replies, the decoding of the
//! smolpc-engine and Ollama streaming protocols, tool-call assembly, the
//! MCP JSON-RPC bookkeeping and the dependency-check decisions.
#![allow(unused_imports)]

pub mod accumulator;
pub mod config;
pub mod decoder;
pub mod engine;
pub mod framing;
pub mod json;
pub mod mcp;
pub mod models;
pub mod providers;
pub mod request;
pub mod stream;
pub mod system;
pub mod text;

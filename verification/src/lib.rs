//! Sovereign execution proxy: a pane-multiplexed command runner with
//! sentinel-based completion detection, together with the pure logic of
//! the HTTP surface, session resolver, SSE relay, MCP tunnel, shell
//! client and records backend that surround it.

pub mod driver;
pub mod http;
pub mod mux;
pub mod records;
pub mod relay;
pub mod resolver;
pub mod sentinel;
pub mod shell;
pub mod text;
pub mod tunnel;

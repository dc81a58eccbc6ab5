//! Bridge layer between an interactive front-end and a long-running
//! background service: the result envelope every command handler returns,
//! the wire form that envelope takes across the boundary, the startup
//! sequence that launches the service, and a small file-openability probe.

pub mod codec;
pub mod envelope;
pub mod greeting;
pub mod orchestrator;
pub mod probe;

//! Native backend logic of a desktop coding assistant: the line protocol
//! spoken with an agent process, the per-session bridge state, the session
//! registry, token telemetry, the checkpoint store layout, and the rules for
//! finding and launching agent binaries.
pub mod text;
pub mod table;
pub mod paths;
pub mod telemetry;
pub mod submission;
pub mod bridge;
pub mod session;
pub mod checkpoint;
pub mod launcher;
pub mod agent_io;
pub mod browser;

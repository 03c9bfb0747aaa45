//! Registration and reconciliation of MCP server integrations for a desktop
//! assistant client: a catalog of installable servers is joined with the
//! client's configuration file, launch commands are derived, and servers are
//! installed, updated and removed.

pub mod model;
pub mod text;
pub mod command;
pub mod servers;
pub mod laws;
pub mod dependency;

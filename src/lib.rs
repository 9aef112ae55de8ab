//! Provisioning of an embedded PostgreSQL server with the pgvecto.rs
//! `vectors` extension: the directory layout, the server settings, the
//! installation plan, the SQL it issues, the order of the setup steps, and
//! the exact values of the extension's integer distances.
//! All file, network and process work is done by the caller.

pub mod distance;
pub mod install;
pub mod layout;
pub mod settings;
pub mod setup;
pub mod sql;
mod text;

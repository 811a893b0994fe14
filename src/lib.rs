//! Session state coordinator: the registry of a session's filesystems,
//! extensions, terminal shells, language servers and persisted data, and the
//! decisions taken on them. Capabilities are kept by the caller and named
//! here by `u64` handles.

pub mod data;
pub mod extensions;
pub mod lemmas;
pub mod registry;
pub mod state;

//! The state of an editor session: its extension catalog, the choice of the
//! extensions that a message reaches, when the session data is to be saved,
//! and the registries of storage backends, tokens and language servers.
pub mod extensions;
pub mod registry;
pub mod state;
pub mod state_data;

//! Core of a secret agent for a network-configuration daemon: match rules that
//! select secret files, the shaping of secrets into a settings reply, and the
//! tracking of the bus names under which the daemon may call.

pub mod agent;
pub mod config;
pub mod encoding;
pub mod encoding_laws;
pub mod error;
pub mod mapping;
pub mod ordered_map;
pub mod peer_key;
pub mod protocol;
pub mod request;
pub mod settings;
pub mod string_set;
pub mod verbosity;

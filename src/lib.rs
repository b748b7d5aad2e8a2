//! Host-side plugin activation: which files in the host's directory are
//! plugins, which of them the configuration admits, and where each admitted
//! plugin's endpoint connects.

mod text;
pub mod config;
pub mod discovery;
pub mod activation;
pub mod version;
pub mod steamvr;

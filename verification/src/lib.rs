//! Sharing git repositories over iroh.

pub mod base32;
pub mod cli;
pub mod config;
pub mod daemon;
pub mod digest;
pub mod error;
pub mod git;
pub mod identity;
pub mod laws;
pub mod lfs;
pub mod lfs_hook;
pub mod node;
pub mod paths;
pub mod protocol;
pub mod random;
pub mod remote_helper;
pub mod sequences;
pub mod share;
pub mod text;
pub mod ticket;
pub mod transfer_agent;
pub mod tray;
pub mod wire;

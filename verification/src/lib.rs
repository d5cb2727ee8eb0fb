//! Secure session and association layer of a credential helper that talks to a
//! password manager over an encrypted local channel.

pub mod channel;
pub mod cli;
pub mod config;
pub mod encoding;
pub mod encryption;
pub mod error;
pub mod git;
pub mod keys;
pub mod messages;
pub mod nonce;
pub mod session;
pub mod text;
pub mod workflow;

//! Credential rehearsal: which stored credentials are due for another
//! recall, how one training run proceeds, and how a secret is read and kept.

pub mod command;
pub mod duration;
pub mod expiry;
pub mod hashing;
pub mod input;
pub mod secret;
pub mod session;
pub mod store;
pub mod text;

//! Revealing the plaintext values of the secrets attached to a deployed app:
//! which app and which secret are meant, what to ask the outside world for,
//! and how the result is rendered.
use vstd::prelude::*;

pub mod types;
pub mod resolve;
pub mod render;
pub mod command;

pub use types::{Secret, ListFormat, ItemFormat, RevealError};
pub use command::CmdAppSecretsReveal;


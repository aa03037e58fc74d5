//! Verified core of a local chat client for Ollama.
pub mod ids;
pub mod models;
pub mod ollama;
pub mod platform;
pub mod presentation;
pub mod profiles;
pub mod providers;
pub mod chat;
pub mod conversations;
pub mod digest;
pub mod error;
pub mod shortcuts;
pub mod text;
pub mod urls;

use vstd::prelude::*;

verus! {

pub const APPLICATION_ID: &'static str = "io.github.moooossee.Moose";

pub const APPLICATION_NAME: &'static str = "Moose";

} // verus!

//! A small server framework for a TLS-only, request/response text
//! protocol: the client sends a single CRLF-terminated URL line and the
//! server answers with a two-digit status code, a meta string, and an
//! optional body.
//!
//! The crate holds the parts of such a server that compute: the wire
//! format and the response encoder ([`GemBytes`]), the path router with
//! `:name` capture segments ([`router::Router`]), percent-decoding, the
//! per-request client model ([`Client`]), and the request pipeline
//! ([`App`]). Listening, TLS and socket input/output belong to the
//! program around it.

use vstd::prelude::*;

pub mod app;
pub mod as_gemtext;
pub mod client;
pub mod err;
pub mod fluff;
pub mod gem_bytes;
pub mod gem_call;
pub mod proxy;
pub mod router;
pub mod text;
pub mod urls;
pub mod wire;

verus! {

pub use app::App;
pub use as_gemtext::AsGemtext;
pub use client::Client;
pub use err::AppErr;
pub use err::StreamErr;
pub use fluff::Fluff;
pub use gem_bytes::GemBytes;
pub use gem_call::GemCall;
pub use gem_call::Static;

} // verus!

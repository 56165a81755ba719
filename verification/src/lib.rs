//! Image recognition through a remote multimodal chat-completion endpoint.
//!
//! The library holds everything around the single network call: resolving
//! the caller's parameter bag into a configuration (`params`), normalizing
//! the base64-encoded image to the 1 MiB transfer budget (`normalize`),
//! assembling the outbound request document (`request`, `api`), and
//! extracting the answer at `choices[0].message.content` from the raw
//! response body (`json`, `response`). The transport itself — one bounded,
//! synchronous POST — is the caller's.

pub mod api;
pub mod errors;
pub mod json;
pub mod normalize;
pub mod params;
pub mod request;
pub mod response;
pub mod text;

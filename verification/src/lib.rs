//! A small user-account service core: a signed bearer-token codec, the
//! per-request authentication gate, the login credential check, and the
//! pure parts of the user-store adapter (identifier validation and
//! JSON assembly of listings).
//!
//! Everything here is verified; the surrounding process (HTTP transport,
//! the document store connection) lives outside the library and hands in
//! plain byte strings.

pub mod b64;
pub mod gate;
pub mod http;
pub mod login;
pub mod sign;
pub mod store;
pub mod token;
pub mod util;

//! Signing of structured objects with ed25519 over a canonical, indented
//! rendering, and sealing of structured values with an attached-tag
//! secretbox whose nonce is a prefix of its key.
use vstd::prelude::*;

pub mod crypto;
pub mod json;
pub mod keys;
pub mod render;
pub mod secret;
pub mod sig;
pub mod text;

verus! {

} // verus!

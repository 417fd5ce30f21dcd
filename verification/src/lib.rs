//! Interactive lookup of a secret in a namespaced key/value secret store.
//!
//! The library holds the decision logic of the tool: the identifier-resolution
//! cascade (exact match, then fuzzy match above a fixed threshold, then an
//! interactive pick-list) and the payload key selection and decoding of a
//! resolved secret. Listing namespaces and secrets, the terminal prompt and
//! the command line live outside, around this crate; they hand the resolver
//! plain candidate lists and carry its decisions out.

pub mod resolve;
pub mod secret;

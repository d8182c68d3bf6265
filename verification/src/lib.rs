//! Token indexing API: request and response models for the three
//! `/api/v1/tokens` routes, together with the JSON wire format they
//! are carried in.
//!
//! The handlers themselves are constant-returning stubs: `index_token`
//! accepts an indexing request and answers with a fixed placeholder
//! record, `search_tokens` answers with a one-element list holding the
//! same record, and `get_token` echoes the requested token id into the
//! otherwise fixed record. The HTTP plumbing around them lives outside
//! this crate; everything here is plain computation on plain values.

pub mod api;
pub mod parse;
pub mod wire;

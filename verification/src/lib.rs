//! Firehose commit decoding, dispatch, and haiku classification.
//!
//! The library turns one binary stream message into typed, per-operation
//! outcomes: it splits the message into its two frames, gates on the
//! envelope, decodes the commit and its content archive through outside
//! codecs, resolves each creation operation against the loaded blocks, and
//! applies the haiku heuristic to post text.

pub mod archive;
pub mod commit;
pub mod dispatch;
pub mod envelope;
pub mod haiku;
pub mod sink;
pub mod text;

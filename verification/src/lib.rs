//! Verified core of an image-hosting upload client.
//!
//! The crate covers the request-signing logic for S3-compatible object
//! storage (the `AWS4-HMAC-SHA256` scheme and the `TOS4-HMAC-SHA256`
//! variant), the chunked multipart-upload state machine, and the tolerant
//! parsers and classifiers for the providers' responses.  Network and file
//! I/O stay outside: callers hand in bytes and events, the library hands
//! back signed header sets, decisions and parsed results.

pub mod byteseq;
pub mod cookies;
pub mod digests;
pub mod encoding;
pub mod errors;
pub mod jsontext;
pub mod linkcheck;
pub mod listing;
pub mod multipart;
pub mod oss;
pub mod results;
pub mod s3opts;
pub mod sigv4;
pub mod textscan;

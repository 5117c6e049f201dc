//! Decision logic of an Oblivious HTTP gateway: key-id selection, KMS key
//! import, header routing and replies. Cryptography, networking, the key
//! cache and the async runtime live with the callers.
pub mod discover;
pub mod error;
pub mod headers;
pub mod key;
pub mod kms;
pub mod request;

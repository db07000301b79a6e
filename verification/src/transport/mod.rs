//! Transport layer configuration.
//!
//! Handshakes, keying and packet protection belong to the transport stack;
//! these modules hold and check the settings that are passed to it.

pub mod dtls;
pub mod srtp;

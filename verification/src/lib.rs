//! Low-latency audio transport logic for voice conversations with a language
//! model.
//!
//! The crate holds the decisions of a full-duplex voice session: packet
//! reordering and playout timing, codec and processor framing, transport
//! configuration and session scheduling. Clocks, codecs, signal processing
//! engines and sockets stay outside; what they report enters as plain values.

pub mod audio;
pub mod peer;
pub mod session;
pub mod text;
pub mod transport;

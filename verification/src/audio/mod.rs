//! Audio path: jitter buffer, codec, processor and the pipeline of them.

pub mod alignment;
pub mod codec;
pub mod codec_laws;
pub mod framing;
pub mod jitter;
pub mod jitter_burst;
pub mod jitter_laws;
pub mod jitter_model;
pub mod jitter_operations;
pub mod pipeline;
pub mod pipeline_laws;
pub mod pipeline_operations;
pub mod processor;
pub mod processor_laws;
pub mod rtp;
pub mod timing;

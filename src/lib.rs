pub mod buffered;
pub mod chain;
pub mod config;
pub mod frame;
pub mod kafka_framing;
pub mod laws;
pub mod message;
pub mod ports_rewrite;
pub mod sampler;
pub mod tee;
pub mod timestamp_tagging;

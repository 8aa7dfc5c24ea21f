//! Streams: named destinations events are published to, and the processing
//! stages a batch can be passed through on the way.

pub mod processors;
pub mod sandbox;

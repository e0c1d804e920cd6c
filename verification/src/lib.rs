//! Verified core of a small screen-sharing helper: it plans the command lines
//! for a virtual-video loopback setup, parses device listings to find the
//! loopback device, and decides retry, region-capture and interrupt-cleanup
//! behaviour. All process spawning lives outside this library; everything here
//! is pure logic over plain values.

pub mod discovery;
pub mod errors;
pub mod interrupt;
pub mod lifecycle;
pub mod recording;
pub mod text;

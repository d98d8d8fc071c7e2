//! The passthrough session's fixed configuration, and the bridge it builds
//! before the streams start.
use crate::bridge::{SampleBridge, SILENCE};
use vstd::prelude::*;

verus! {

/// The hardware buffer size, in frames, asked of both streams.
pub const HARDWARE_BUFFER_FRAMES: u32 = 32;

/// The bridge's capacity in samples: four hardware buffers. A larger bridge
/// adds latency; a smaller one leaves less slack before an overrun.
pub const BRIDGE_CAPACITY: usize = 128;

/// The silent samples the bridge starts with, one hardware buffer's worth, so
/// that the first render callback does not underrun while the capture
/// callback has not yet run.
pub const PREFILL_SAMPLES: usize = 32;

/// The bridge a session starts its streams with: `BRIDGE_CAPACITY` samples of
/// room, holding `PREFILL_SAMPLES` silent samples.
pub fn prefilled_bridge() -> (b: SampleBridge)
    ensures
        b.wf(),
        b.cap() == BRIDGE_CAPACITY,
        b@ == Seq::new(PREFILL_SAMPLES as nat, |i: int| SILENCE),
{
    SampleBridge::with_prefill(BRIDGE_CAPACITY, PREFILL_SAMPLES)
}

} // verus!

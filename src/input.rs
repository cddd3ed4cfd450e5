//! A captured recording as handed to the pipeline.
use std::sync::Arc;
use vstd::prelude::*;

verus! {

/// Audio segments from one device, with how they were recorded and where the
/// result is meant to go. The pipeline reads `sample_rate` and `channels`; the
/// device name and the output location are carried for the callers.
#[derive(Clone, Debug)]
pub struct AudioInput<S> {
    pub data: Arc<Vec<S>>,
    pub sample_rate: u32,
    pub channels: u16,
    /// Name of the device that recorded the segments.
    pub device: Arc<String>,
    /// Where the caller intends to write the result.
    pub output_path: Arc<String>,
}

} // verus!

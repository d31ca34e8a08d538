//! Verified core of a screen recorder: Annex B to AVCC conversion of H.264
//! bitstreams, YUV 4:2:0 frame buffers, frame capture checks, encoder glue
//! and the sample timing rules of the MP4 writer.

pub mod avcc;
pub mod yuv;
pub mod pipeline;
pub mod utils;

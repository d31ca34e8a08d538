use vstd::prelude::*;

use crate::yuv::YUVBuffer;

pub mod capturer;
pub mod encoder;
pub mod writer;

verus! {

/// Ticks per second of the media timeline.
pub const VIDEO_TIMESCALE: u32 = 90000;

/// The pixels of a captured frame.
pub enum RawFrameData {
    /// Tightly packed BGRA rows owned by the frame.
    Owned(Vec<u8>),
}

/// A captured BGRA frame with its capture time in timeline ticks.
pub struct RawFrame {
    pub data: RawFrameData,
    pub width: usize,
    pub height: usize,
    pub timestamp_ticks: u64,
}

impl RawFrame {
    /// The frame's BGRA bytes.
    pub open spec fn bgra(&self) -> Seq<u8> {
        match self.data {
            RawFrameData::Owned(v) => v@,
        }
    }

    /// A frame whose pixels the YUV conversion can take: even dimensions,
    /// rows of `4 * width` bytes that fit 32-bit strides, and all rows present.
    pub open spec fn convertible(&self) -> bool {
        &&& self.width % 2 == 0
        &&& self.height % 2 == 0
        &&& self.width * 4 <= u32::MAX
        &&& self.height <= u32::MAX
        &&& self.bgra().len() >= self.width * 4 * self.height
    }

    /// Converts the frame into `yuv_buffer`, resized to the frame's dimensions.
    pub fn convert_to_yuv(&self, yuv_buffer: &mut YUVBuffer)
        requires
            old(yuv_buffer).wf(),
            self.convertible(),
        ensures
            final(yuv_buffer).wf(),
            final(yuv_buffer)@.width == self.width,
            final(yuv_buffer)@.height == self.height,
            final(yuv_buffer).holds_conversion_of(self.bgra(), 4 * self.width),
    {
        let data = match &self.data {
            RawFrameData::Owned(data) => data.as_slice(),
        };
        let ghost n = data@.len();
        assert(data.len() == n);
        proof {
            assert(self.width * self.height <= self.width * 4 * self.height) by (nonlinear_arith);
        }
        yuv_buffer.resize(self.width, self.height);
        yuv_buffer.from_bgra(data, self.width * 4);
    }
}

/// An encoded frame in AVCC framing, with the parameter sets that came with it.
pub struct EncodedFrame {
    pub data: Vec<u8>,
    pub width: usize,
    pub height: usize,
    pub timestamp_ticks: u64,
    pub is_keyframe: bool,
    pub sps: Option<Vec<u8>>,
    pub pps: Option<Vec<u8>>,
}

/// Capture resolutions offered by the recorder.
#[derive(Clone, Copy, Debug, PartialEq, Eq, Structural)]
pub enum Resolution {
    /// 1280 x 720.
    _720p,
    /// 1920 x 1080.
    _1080p,
}

/// What to record and where.
#[derive(Debug, Clone)]
pub struct RecordConfig {
    pub fps: u32,
    pub resolution: Resolution,
    pub filename: String,
}

impl RecordConfig {
    /// 720p at 30 frames per second.
    pub fn _720p30(filename: String) -> (res: Self)
        ensures
            res.fps == 30,
            res.resolution == Resolution::_720p,
            res.filename == filename,
    {
        RecordConfig { fps: 30, resolution: Resolution::_720p, filename }
    }

    /// 720p at 60 frames per second.
    pub fn _720p60(filename: String) -> (res: Self)
        ensures
            res.fps == 60,
            res.resolution == Resolution::_720p,
            res.filename == filename,
    {
        RecordConfig { fps: 60, resolution: Resolution::_720p, filename }
    }

    /// 1080p at 30 frames per second.
    pub fn _1080p30(filename: String) -> (res: Self)
        ensures
            res.fps == 30,
            res.resolution == Resolution::_1080p,
            res.filename == filename,
    {
        RecordConfig { fps: 30, resolution: Resolution::_1080p, filename }
    }

    /// 1080p at 60 frames per second.
    pub fn _1080p60(filename: String) -> (res: Self)
        ensures
            res.fps == 60,
            res.resolution == Resolution::_1080p,
            res.filename == filename,
    {
        RecordConfig { fps: 60, resolution: Resolution::_1080p, filename }
    }
}

} // verus!

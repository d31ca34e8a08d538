use vstd::prelude::*;

use super::EncodedFrame;
use super::VIDEO_TIMESCALE;

verus! {

/// The id of the one video track the recorder writes.
pub const TRACK_ID: u32 = 1;

/// The video track to add: frame size and the parameter sets of the stream.
pub struct TrackSpec {
    pub width: u16,
    pub height: u16,
    pub sps: Vec<u8>,
    pub pps: Vec<u8>,
}

/// One sample to write to the track.
pub struct SampleSpec {
    pub start_time: u64,
    pub duration: u32,
    pub rendering_offset: i32,
    pub is_sync: bool,
    pub bytes: Vec<u8>,
}

/// What the writer does with an encoded frame.
pub enum WriterAction {
    /// Drop the frame: no track yet, and the frame does not carry both
    /// parameter sets needed to add one.
    Skip,
    /// Add the track first when `track` is given, then write the sample.
    Write { track: Option<TrackSpec>, sample: SampleSpec },
}

/// The writer's decisions between frames.
pub struct WriterState {
    pub track_added: bool,
    pub last_frame_ticks: u64,
    pub fallback_duration: u32,
}

/// The duration given to a sample that starts at `current`, when the
/// previous one started at `last`: the time between them when there was a
/// previous sample and time went forward (taken to 32 bits), the fallback
/// otherwise.
pub open spec fn sample_duration(last: u64, current: u64, fallback: u32) -> u32 {
    if last > 0 && current > last {
        (current - last) as u32
    } else {
        fallback
    }
}

/// A sample's duration is the time since the previous sample, taken to 32
/// bits, whenever there was a previous sample (at a non-zero time) and time
/// went forward, whatever the fallback; the fallback only stands in when
/// there was none or time did not go forward.
pub proof fn lemma_sample_duration(last: u64, current: u64, fallback: u32)
    ensures
        last > 0 && current > last ==> sample_duration(last, current, fallback) as int == (current
            - last) % 0x1_0000_0000,
        last == 0 || current <= last ==> sample_duration(last, current, fallback) == fallback,
{
    if last > 0 && current > last {
        let d: u64 = (current - last) as u64;
        assert(d as u32 == d % 0x1_0000_0000) by (bit_vector);
    }
}

impl WriterState {
    /// The state before the first frame of a recording at `fps` frames per
    /// second: no track, no previous sample, and one frame's time as the
    /// fallback duration.
    pub fn new(fps: u32) -> (res: Self)
        requires
            fps > 0,
        ensures
            !res.track_added,
            res.last_frame_ticks == 0,
            res.fallback_duration == VIDEO_TIMESCALE / fps,
    {
        WriterState { track_added: false, last_frame_ticks: 0, fallback_duration: VIDEO_TIMESCALE / fps }
    }

    /// Decides what to do with the next encoded frame. Until the track is
    /// added, a frame that does not carry both parameter sets is skipped and
    /// changes nothing; the first frame that carries them adds the track
    /// (with the frame's size taken to 16 bits). Every frame that is not
    /// skipped becomes a sample that starts at the frame's timestamp, lasts
    /// `sample_duration` and is a sync sample when the frame is a keyframe.
    pub fn accept_frame(&mut self, frame: EncodedFrame) -> (res: WriterAction)
        ensures
            !old(self).track_added && (frame.sps is None || frame.pps is None) ==> {
                &&& res is Skip
                &&& *final(self) == *old(self)
            },
            old(self).track_added || (frame.sps is Some && frame.pps is Some) ==> {
                &&& final(self).track_added
                &&& final(self).last_frame_ticks == frame.timestamp_ticks
                &&& final(self).fallback_duration == old(self).fallback_duration
                &&& res matches WriterAction::Write { track, sample } && {
                    &&& sample.start_time == frame.timestamp_ticks
                    &&& sample.duration == sample_duration(
                        old(self).last_frame_ticks,
                        frame.timestamp_ticks,
                        old(self).fallback_duration,
                    )
                    &&& (old(self).last_frame_ticks > 0 && frame.timestamp_ticks
                        > old(self).last_frame_ticks ==> sample.duration as int == (
                    frame.timestamp_ticks - old(self).last_frame_ticks) % 0x1_0000_0000)
                    &&& (old(self).last_frame_ticks == 0 || frame.timestamp_ticks
                        <= old(self).last_frame_ticks ==> sample.duration
                        == old(self).fallback_duration)
                    &&& sample.rendering_offset == 0
                    &&& sample.is_sync == frame.is_keyframe
                    &&& sample.bytes@ == frame.data@
                    &&& (old(self).track_added ==> track is None)
                    &&& (!old(self).track_added ==> (track matches Some(t) && {
                        &&& t.width == frame.width as u16
                        &&& t.height == frame.height as u16
                        &&& t.sps@ == frame.sps->0@
                        &&& t.pps@ == frame.pps->0@
                    }))
                }
            },
    {
        let width = #[verifier::truncate] (frame.width as u16);
        let height = #[verifier::truncate] (frame.height as u16);
        let current_ticks = frame.timestamp_ticks;
        let EncodedFrame { data, width: _, height: _, timestamp_ticks: _, is_keyframe, sps, pps } =
            frame;
        let mut track: Option<TrackSpec> = None;
        if !self.track_added {
            match (sps, pps) {
                (Some(seq_param_set), Some(pic_param_set)) => {
                    track = Some(
                        TrackSpec { width, height, sps: seq_param_set, pps: pic_param_set },
                    );
                    self.track_added = true;
                },
                _ => {
                    return WriterAction::Skip;
                },
            }
        }
        let duration = if self.last_frame_ticks > 0 && current_ticks > self.last_frame_ticks {
            #[verifier::truncate] ((current_ticks - self.last_frame_ticks) as u32)
        } else {
            self.fallback_duration
        };
        let sample = SampleSpec {
            start_time: current_ticks,
            duration,
            rendering_offset: 0,
            is_sync: is_keyframe,
            bytes: data,
        };
        proof {
            lemma_sample_duration(old(self).last_frame_ticks, current_ticks, self.fallback_duration);
        }
        self.last_frame_ticks = current_ticks;
        WriterAction::Write { track, sample }
    }
}

} // verus!

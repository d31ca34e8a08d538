use vstd::prelude::*;

use openh264::encoder::EncodedBitStream;
use openh264::encoder::Encoder;

use super::EncodedFrame;
use super::RawFrame;
use crate::avcc::after_convert;
use crate::avcc::annex_b_nal_units;
use crate::avcc::avcc_frame;
use crate::avcc::avcc_unit;
use crate::avcc::video_units;
use crate::avcc::last_of_type;
use crate::avcc::lemma_convert_result;
use crate::avcc::lemma_last_of_type_concat;
use crate::avcc::NAL_TYPE_PPS;
use crate::avcc::NAL_TYPE_SPS;
use crate::avcc::opt_bytes;
use crate::avcc::AvccConverter;
use crate::avcc::AvccState;
use crate::yuv::YUVBuffer;

verus! {

#[verifier::external_type_specification]
#[verifier::external_body]
pub struct ExEncoder(Encoder);

#[verifier::external_type_specification]
#[verifier::external_body]
pub struct ExEncodedBitStream<'a>(EncodedBitStream<'a>);

#[verifier::external_type_specification]
#[verifier::external_body]
pub struct ExOpenH264Error(openh264::Error);

/// Whether the planes, dimensions and strides make a valid 4:2:0 picture
/// for `YUVSlices::new`, which panics otherwise.
pub open spec fn yuv_slices_fit(
    y_len: nat,
    u_len: nat,
    v_len: nat,
    width: usize,
    height: usize,
    strides: (usize, usize, usize),
) -> bool {
    &&& strides.0 >= width
    &&& strides.1 >= width / 2
    &&& strides.2 >= width / 2
    &&& y_len == height * strides.0
    &&& u_len == (height / 2) * strides.1
    &&& v_len == (height / 2) * strides.2
}

/// Calls `Encoder::encode` on the picture made of the three planes (handed
/// over as `YUVSlices`). The encoder keeps state between frames (rate
/// control, keyframe interval, resolution changes), so nothing is stated of
/// the bitstream or of the error it returns.
#[verifier::external_body]
fn encode_planes<'a>(
    encoder: &'a mut Encoder,
    y: &[u8],
    u: &[u8],
    v: &[u8],
    width: usize,
    height: usize,
    strides: (usize, usize, usize),
) -> (res: Result<EncodedBitStream<'a>, openh264::Error>)
    requires
        yuv_slices_fit(y@.len(), u@.len(), v@.len(), width, height, strides),
{
    let picture = openh264::formats::YUVSlices::new((y, u, v), (width, height), strides);
    encoder.encode(&picture)
}

/// Calls `EncodedBitStream::write_vec`, which appends the bitstream's NAL
/// units to `dst`: what was in `dst` stays in front. The bytes appended are
/// those of the encoder's output and are not stated.
#[verifier::external_body]
fn write_bitstream(bitstream: &EncodedBitStream, dst: &mut Vec<u8>)
    ensures
        final(dst)@.len() >= old(dst)@.len(),
        final(dst)@.subrange(0, old(dst)@.len() as int) == old(dst)@,
{
    bitstream.write_vec(dst)
}

/// Calls `EncodedBitStream::frame_type` and tells whether the frame is an
/// IDR frame. The frame type is the encoder's choice and is not stated.
#[verifier::external_body]
fn is_idr_frame(bitstream: &EncodedBitStream) -> bool {
    match bitstream.frame_type() {
        openh264::encoder::FrameType::IDR => true,
        _ => false,
    }
}

/// The outcome of `frame_from_bitstream` on a converter in state `before`:
/// the result `res` and the converter's state `after`.
pub open spec fn bitstream_frame(
    before: AvccState,
    bitstream: Seq<u8>,
    width: usize,
    height: usize,
    timestamp_ticks: u64,
    is_keyframe: bool,
    res: Option<EncodedFrame>,
    after: AvccState,
) -> bool {
    let s = after_convert(before, bitstream);
    if s.avcc_data.len() == 0 {
        &&& res is None
        &&& after == s
    } else {
        &&& res matches Some(f) && {
            &&& f.data@ == s.avcc_data
            &&& opt_bytes(f.sps) == s.sps
            &&& opt_bytes(f.pps) == s.pps
            &&& f.width == width
            &&& f.height == height
            &&& f.timestamp_ticks == timestamp_ticks
            &&& f.is_keyframe == is_keyframe
        }
        &&& after == (AvccState { avcc_data: seq![], sps: None, pps: None })
    }
}

/// Turns the Annex B bitstream of one encoded frame into an `EncodedFrame`:
/// the bitstream is converted to AVCC framing; when that leaves no data the
/// result is `None` and the converter keeps any parameter sets it now
/// holds, otherwise the frame carries the AVCC data and the parameter sets,
/// which the converter gives up.
pub fn frame_from_bitstream(
    converter: &mut AvccConverter,
    bitstream: &[u8],
    width: usize,
    height: usize,
    timestamp_ticks: u64,
    is_keyframe: bool,
) -> (res: Option<EncodedFrame>)
    ensures
        bitstream_frame(
            old(converter)@,
            bitstream@,
            width,
            height,
            timestamp_ticks,
            is_keyframe,
            res,
            final(converter)@,
        ),
{
    converter.convert(bitstream);
    let data = converter.take_avcc_data();
    if data.len() == 0 {
        proof {
            assert(final(converter)@ =~= after_convert(old(converter)@, bitstream@)) by {
                assert(converter@.avcc_data =~= after_convert(old(converter)@, bitstream@).avcc_data);
            }
        }
        return None;
    }
    let sps = converter.take_sps();
    let pps = converter.take_pps();
    Some(EncodedFrame { data, width, height, timestamp_ticks, is_keyframe, sps, pps })
}

/// What one `encode` call does to the converter's state `before`: either
/// no frame and no change (an empty frame or an encoder error), or what
/// `frame_from_bitstream` does with some bitstream.
pub open spec fn encode_step(before: AvccState, res: Option<EncodedFrame>, after: AvccState) -> bool {
    ||| (res is None && after == before)
    ||| exists|b: Seq<u8>, width: usize, height: usize, timestamp_ticks: u64, is_keyframe: bool|
        #[trigger] bitstream_frame(before, b, width, height, timestamp_ticks, is_keyframe, res, after)
}

/// Software H.264 encoding of raw frames into AVCC-framed frames.
pub struct OpenH264Encoder {
    encoder: Encoder,
    converter: AvccConverter,
    yuv_buffer: YUVBuffer,
    h264_buffer: Vec<u8>,
}

/// Capacity reserved for one frame's Annex B bitstream.
const H264_BUFFER_CAPACITY: usize = 1048576;

impl OpenH264Encoder {
    /// Whether the frame buffer is sized for its dimensions.
    pub closed spec fn wf(&self) -> bool {
        self.yuv_buffer.wf()
    }

    /// An encoder around a configured OpenH264 encoder, with an empty frame
    /// buffer and a converter that holds nothing.
    pub fn new(encoder: Encoder) -> (res: Self)
        ensures
            res.wf(),
            res.converter_state() == (AvccState { avcc_data: seq![], sps: None, pps: None }),
    {
        OpenH264Encoder {
            encoder,
            converter: AvccConverter::new(),
            yuv_buffer: YUVBuffer::default(),
            h264_buffer: Vec::with_capacity(H264_BUFFER_CAPACITY),
        }
    }

    /// The bitstream the encoder gave for the last frame (empty when the
    /// last frame was not encoded).
    pub closed spec fn last_bitstream(&self) -> Seq<u8> {
        self.h264_buffer@
    }

    /// The OpenH264 encoder the frames go to.
    pub closed spec fn h264_encoder(&self) -> Encoder {
        self.encoder
    }

    /// The YUV buffer the last frame was converted into.
    pub closed spec fn yuv_frame(&self) -> YUVBuffer {
        self.yuv_buffer
    }

    /// The state of the converter between frames.
    pub closed spec fn converter_state(&self) -> AvccState {
        self.converter@
    }

    /// Encodes one raw frame. A frame with an empty dimension gives `None`;
    /// otherwise the frame is converted to YUV and encoded, and the
    /// encoder's bitstream goes through `frame_from_bitstream`. An encoder
    /// error gives `None`.
    pub fn encode(&mut self, raw_frame: RawFrame) -> (res: Option<EncodedFrame>)
        requires
            old(self).wf(),
            raw_frame.width == 0 || raw_frame.height == 0 || raw_frame.convertible(),
        ensures
            final(self).wf(),
            raw_frame.width == 0 || raw_frame.height == 0 ==> {
                &&& res is None
                &&& final(self).converter_state() == old(self).converter_state()
                &&& final(self).yuv_frame() == old(self).yuv_frame()
                &&& final(self).h264_encoder() == old(self).h264_encoder()
            },
            raw_frame.width != 0 && raw_frame.height != 0 ==> {
                &&& final(self).yuv_frame()@.width == raw_frame.width
                &&& final(self).yuv_frame()@.height == raw_frame.height
                &&& final(self).yuv_frame().holds_conversion_of(raw_frame.bgra(), 4 * raw_frame.width)
                &&& (res is None && final(self).converter_state() == old(self).converter_state())
                    || exists|bitstream: Seq<u8>, is_keyframe: bool|
                    bitstream_frame(
                        old(self).converter_state(),
                        bitstream,
                        raw_frame.width,
                        raw_frame.height,
                        raw_frame.timestamp_ticks,
                        is_keyframe,
                        res,
                        final(self).converter_state(),
                    )
            },
            raw_frame.width != 0 && raw_frame.height != 0 && old(self).converter_state().avcc_data.len()
                == 0 ==> exists|is_keyframe: bool|
                bitstream_frame(
                    old(self).converter_state(),
                    final(self).last_bitstream(),
                    raw_frame.width,
                    raw_frame.height,
                    raw_frame.timestamp_ticks,
                    is_keyframe,
                    res,
                    final(self).converter_state(),
                ),
            raw_frame.width != 0 && raw_frame.height != 0 && res is None
                && final(self).last_bitstream().len() > 0 ==> after_convert(
                old(self).converter_state(),
                final(self).last_bitstream(),
            ).avcc_data.len() == 0,
            old(self).converter_state().avcc_data.len() == 0
                ==> final(self).converter_state().avcc_data.len() == 0,
            encode_step(old(self).converter_state(), res, final(self).converter_state()),
            res matches Some(f) ==> {
                &&& f.width == raw_frame.width
                &&& f.height == raw_frame.height
                &&& f.timestamp_ticks == raw_frame.timestamp_ticks
                &&& f.data@.len() > 0
                &&& final(self).converter_state() == (AvccState {
                    avcc_data: seq![],
                    sps: None,
                    pps: None,
                })
            },
    {
        self.h264_buffer.clear();
        let width = raw_frame.width;
        let height = raw_frame.height;
        let timestamp_ticks = raw_frame.timestamp_ticks;
        if width == 0 || height == 0 {
            return None;
        }
        raw_frame.convert_to_yuv(&mut self.yuv_buffer);
        let strides = self.yuv_buffer.strides();
        proof {
            let w = width as int;
            let h = height as int;
            assert(w * h / 4 == (h / 2) * (w / 2)) by (nonlinear_arith)
                requires
                    w % 2 == 0,
                    h % 2 == 0,
                    w >= 0,
                    h >= 0,
            ;
            assert(w * h == h * w) by (nonlinear_arith);
        }
        let is_keyframe = match encode_planes(
            &mut self.encoder,
            self.yuv_buffer.y(),
            self.yuv_buffer.u(),
            self.yuv_buffer.v(),
            width,
            height,
            strides,
        ) {
            Ok(bitstream) => {
                write_bitstream(&bitstream, &mut self.h264_buffer);
                is_idr_frame(&bitstream)
            },
            Err(_) => {
                proof {
                    assert(self.h264_buffer@.len() == 0);
                    lemma_empty_bitstream_keeps_state(old(self).converter_state());
                    assert(bitstream_frame(
                        old(self).converter_state(),
                        self.h264_buffer@,
                        width,
                        height,
                        timestamp_ticks,
                        false,
                        None,
                        self.converter_state(),
                    ) || old(self).converter_state().avcc_data.len() != 0) by {
                        assert(self.h264_buffer@ =~= Seq::<u8>::empty());
                    }
                }
                return None;
            },
        };
        assert(self.h264_buffer@.subrange(0, 0) == Seq::<u8>::empty());
        let res = frame_from_bitstream(
            &mut self.converter,
            self.h264_buffer.as_slice(),
            width,
            height,
            timestamp_ticks,
            is_keyframe,
        );
        proof {
            let b = self.h264_buffer@;
            assert(bitstream_frame(
                old(self).converter_state(),
                b,
                width,
                height,
                timestamp_ticks,
                is_keyframe,
                res,
                self.converter_state(),
            ));
        }
        res
    }
}

/// All NAL units of the bitstreams `bs`, in order.
pub open spec fn units_of_bitstreams(bs: Seq<Seq<u8>>) -> Seq<Seq<u8>>
    decreases bs.len(),
{
    if bs.len() == 0 {
        seq![]
    } else {
        units_of_bitstreams(bs.drop_last()) + annex_b_nal_units(bs.last())
    }
}

/// The converter's state after converting the bitstreams `bs` in turn,
/// starting from `s`.
pub open spec fn converted_in_turn(s: AvccState, bs: Seq<Seq<u8>>) -> AvccState
    decreases bs.len(),
{
    if bs.len() == 0 {
        s
    } else {
        after_convert(converted_in_turn(s, bs.drop_last()), bs.last())
    }
}

proof fn lemma_converted_in_turn_parameter_sets(s: AvccState, bs: Seq<Seq<u8>>)
    ensures
        converted_in_turn(s, bs).sps == last_of_type(units_of_bitstreams(bs), NAL_TYPE_SPS as int, s.sps),
        converted_in_turn(s, bs).pps == last_of_type(units_of_bitstreams(bs), NAL_TYPE_PPS as int, s.pps),
    decreases bs.len(),
{
    if bs.len() == 0 {
    } else {
        let init = bs.drop_last();
        lemma_converted_in_turn_parameter_sets(s, init);
        lemma_convert_result(converted_in_turn(s, init), bs.last());
        lemma_last_of_type_concat(
            units_of_bitstreams(init),
            annex_b_nal_units(bs.last()),
            NAL_TYPE_SPS as int,
            s.sps,
        );
        lemma_last_of_type_concat(
            units_of_bitstreams(init),
            annex_b_nal_units(bs.last()),
            NAL_TYPE_PPS as int,
            s.pps,
        );
    }
}

/// Parameter sets are reported with the next frame and only once: when the
/// converter holds none (as after `new` or after a frame was given out),
/// and the bitstreams `bs` gave no frame in turn before the bitstream `b`
/// gave one, that frame carries the last sequence and picture parameter
/// sets of all those bitstreams (`None` where there were none), and the
/// converter is left holding none.
pub proof fn lemma_parameter_sets_reported_once(
    s0: AvccState,
    bs: Seq<Seq<u8>>,
    b: Seq<u8>,
    width: usize,
    height: usize,
    timestamp_ticks: u64,
    is_keyframe: bool,
    res: Option<EncodedFrame>,
    after: AvccState,
)
    requires
        s0.sps is None,
        s0.pps is None,
        forall|k: int|
            0 <= k < bs.len() ==> (#[trigger] after_convert(
                converted_in_turn(s0, bs.take(k)),
                bs[k],
            )).avcc_data.len() == 0,
        bitstream_frame(
            converted_in_turn(s0, bs),
            b,
            width,
            height,
            timestamp_ticks,
            is_keyframe,
            res,
            after,
        ),
        res is Some,
    ensures
        opt_bytes(res->0.sps) == last_of_type(
            units_of_bitstreams(bs.push(b)),
            NAL_TYPE_SPS as int,
            None,
        ),
        opt_bytes(res->0.pps) == last_of_type(
            units_of_bitstreams(bs.push(b)),
            NAL_TYPE_PPS as int,
            None,
        ),
        after.sps is None,
        after.pps is None,
{
    let all = bs.push(b);
    assert(all.drop_last() =~= bs);
    lemma_converted_in_turn_parameter_sets(s0, all);
}

proof fn lemma_none_steps_convert_in_turn(
    states: Seq<AvccState>,
    results: Seq<Option<EncodedFrame>>,
    i: int,
) -> (bs: Seq<Seq<u8>>)
    requires
        states.len() == results.len() + 1,
        0 <= i <= results.len(),
        forall|j: int| 0 <= j < i ==> #[trigger] results[j] is None,
        forall|j: int|
            0 <= j < results.len() ==> encode_step(states[j], #[trigger] results[j], states[j + 1]),
    ensures
        states[i] == converted_in_turn(states[0], bs),
    decreases i,
{
    if i == 0 {
        Seq::empty()
    } else {
        let prev = lemma_none_steps_convert_in_turn(states, results, i - 1);
        assert(results[i - 1] is None);
        assert(encode_step(states[i - 1], results[i - 1], states[i]));
        if states[i] == states[i - 1] {
            prev
        } else {
            let (b, w, h, t, k) = choose|b: Seq<u8>, w: usize, h: usize, t: u64, k: bool|
                #[trigger] bitstream_frame(states[i - 1], b, w, h, t, k, results[i - 1], states[i]);
            let bs = prev.push(b);
            assert(bs.drop_last() =~= prev);
            bs
        }
    }
}

/// Across a run of `encode` calls on one encoder, parameter sets are
/// reported with the next frame and only once: when the converter starts
/// holding none (as after `new` or after a frame was given out), calls that
/// give no frame, then one that gives a frame, the frame carries the last
/// sequence and picture parameter sets of the bitstreams the encoder gave
/// over those calls (`None` where there were none), and the converter is
/// left holding none. `states` are the converter's states between the calls
/// and `results` the calls' results, each call related by `encode_step` as
/// `encode` ensures.
pub proof fn lemma_encode_calls_report_parameter_sets_once(
    states: Seq<AvccState>,
    results: Seq<Option<EncodedFrame>>,
)
    requires
        results.len() > 0,
        states.len() == results.len() + 1,
        states[0].sps is None,
        states[0].pps is None,
        forall|j: int|
            0 <= j < results.len() ==> encode_step(states[j], #[trigger] results[j], states[j + 1]),
        forall|j: int| 0 <= j < results.len() - 1 ==> #[trigger] results[j] is None,
        results.last() is Some,
    ensures
        exists|bs: Seq<Seq<u8>>|
            {
                &&& opt_bytes(results.last()->0.sps) == last_of_type(
                    units_of_bitstreams(bs),
                    NAL_TYPE_SPS as int,
                    None,
                )
                &&& opt_bytes(results.last()->0.pps) == last_of_type(
                    units_of_bitstreams(bs),
                    NAL_TYPE_PPS as int,
                    None,
                )
            },
        states.last().sps is None,
        states.last().pps is None,
{
    let n = results.len() as int;
    let prev = lemma_none_steps_convert_in_turn(states, results, n - 1);
    assert(encode_step(states[n - 1], results[n - 1], states[n]));
    let (b, w, h, t, k) = choose|b: Seq<u8>, w: usize, h: usize, t: u64, k: bool|
        #[trigger] bitstream_frame(states[n - 1], b, w, h, t, k, results[n - 1], states[n]);
    let bs = prev.push(b);
    assert(bs.drop_last() =~= prev);
    lemma_converted_in_turn_parameter_sets(states[0], bs);
    assert(converted_in_turn(states[0], bs) == after_convert(states[n - 1], b));
}

proof fn lemma_empty_bitstream_keeps_state(s: AvccState)
    ensures
        s.avcc_data.len() == 0 ==> after_convert(s, Seq::<u8>::empty()) == s,
{
    let e = Seq::<u8>::empty();
    assert(annex_b_nal_units(e) == Seq::<Seq<u8>>::empty());
    if s.avcc_data.len() == 0 {
        assert(s.avcc_data =~= Seq::<u8>::empty());
    }
}

/// A frame comes out of a bitstream exactly when the bitstream holds a NAL
/// unit that is neither empty nor a parameter set (a slice), whatever the
/// frame type the encoder reported; its data is then the AVCC framing of
/// those units and it carries the reported frame type.
pub proof fn lemma_frame_exactly_when_slices(
    before: AvccState,
    b: Seq<u8>,
    width: usize,
    height: usize,
    timestamp_ticks: u64,
    is_keyframe: bool,
    res: Option<EncodedFrame>,
    after: AvccState,
)
    requires
        bitstream_frame(before, b, width, height, timestamp_ticks, is_keyframe, res, after),
    ensures
        res is Some <==> video_units(annex_b_nal_units(b)).len() > 0,
        res matches Some(f) ==> {
            &&& f.data@ == avcc_frame(video_units(annex_b_nal_units(b)))
            &&& f.is_keyframe == is_keyframe
            &&& f.timestamp_ticks == timestamp_ticks
        },
{
    lemma_convert_result(before, b);
    let v = video_units(annex_b_nal_units(b));
    if v.len() > 0 {
        assert(avcc_frame(v) == avcc_unit(v[0]) + avcc_frame(v.drop_first()));
        assert(avcc_frame(v).len() >= 4);
    } else {
        assert(avcc_frame(v) == Seq::<u8>::empty());
    }
}

} // verus!

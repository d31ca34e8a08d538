use vstd::prelude::*;
use vstd::slice::slice_subrange;
use vstd::slice::slice_to_vec;

verus! {

/// NAL unit type of a sequence parameter set.
pub const NAL_TYPE_SPS: u8 = 7;

/// NAL unit type of a picture parameter set.
pub const NAL_TYPE_PPS: u8 = 8;

/// Capacity reserved for the AVCC output buffer.
const AVCC_BUFFER_CAPACITY: usize = 262144;

/// Length of the Annex B start code that begins at index `i` of `d`:
/// 3 for `00 00 01`, 4 for `00 00 00 01`, 0 when there is none.
pub open spec fn start_code_len(d: Seq<u8>, i: int) -> int {
    if 0 <= i && i + 2 < d.len() && d[i] == 0 && d[i + 1] == 0 {
        if d[i + 2] == 1 {
            3
        } else if i + 3 < d.len() && d[i + 2] == 0 && d[i + 3] == 1 {
            4
        } else {
            0
        }
    } else {
        0
    }
}

/// The NAL units of `d` that a left-to-right scan for start codes finds from
/// index `i` on, when the unit being read began at index `start`.
/// Each start code ends the current unit (if it is not empty) and the scan
/// resumes right after the start code; what follows the last start code is
/// the final unit.
pub open spec fn nal_units_from(d: Seq<u8>, i: int, start: int) -> Seq<Seq<u8>>
    decreases d.len() - i,
{
    if i + 2 >= d.len() {
        if start < d.len() {
            seq![d.subrange(start, d.len() as int)]
        } else {
            seq![]
        }
    } else {
        let n = start_code_len(d, i);
        if n > 0 {
            let rest = nal_units_from(d, i + n, i + n);
            if i > start {
                seq![d.subrange(start, i)] + rest
            } else {
                rest
            }
        } else {
            nal_units_from(d, i + 1, start)
        }
    }
}

/// The NAL units of an Annex B byte stream, in stream order.
pub open spec fn annex_b_nal_units(d: Seq<u8>) -> Seq<Seq<u8>> {
    nal_units_from(d, 0, 0)
}

/// The type of a NAL unit: the low five bits of its first byte.
pub open spec fn nal_type(nal: Seq<u8>) -> int {
    (nal[0] % 32) as int
}

/// Whether a NAL unit is a sequence or picture parameter set.
pub open spec fn is_parameter_set(nal: Seq<u8>) -> bool {
    nal.len() > 0 && (nal_type(nal) == NAL_TYPE_SPS || nal_type(nal) == NAL_TYPE_PPS)
}

/// The big-endian bytes of a 32-bit value.
pub open spec fn be32(n: u32) -> Seq<u8> {
    seq![(n >> 24u32) as u8, (n >> 16u32) as u8, (n >> 8u32) as u8, n as u8]
}

/// The 32-bit value of four big-endian bytes.
pub open spec fn be32_value(b0: u8, b1: u8, b2: u8, b3: u8) -> u32 {
    ((b0 as u32) << 24u32) | ((b1 as u32) << 16u32) | ((b2 as u32) << 8u32) | (b3 as u32)
}

/// One NAL unit in AVCC framing: its length as a 32-bit big-endian prefix
/// (the length taken modulo 2^32), then the unit.
pub open spec fn avcc_unit(nal: Seq<u8>) -> Seq<u8> {
    be32(nal.len() as u32) + nal
}

/// NAL units in AVCC framing, one after the other.
pub open spec fn avcc_frame(nals: Seq<Seq<u8>>) -> Seq<u8>
    decreases nals.len(),
{
    if nals.len() == 0 {
        seq![]
    } else {
        avcc_unit(nals[0]) + avcc_frame(nals.drop_first())
    }
}

/// The units of a sequence that are neither empty nor parameter sets, in order.
pub open spec fn video_units(nals: Seq<Seq<u8>>) -> Seq<Seq<u8>>
    decreases nals.len(),
{
    if nals.len() == 0 {
        seq![]
    } else {
        let rest = video_units(nals.drop_first());
        if nals[0].len() > 0 && !is_parameter_set(nals[0]) {
            seq![nals[0]] + rest
        } else {
            rest
        }
    }
}

/// The last unit of type `t` in `nals`, or `prev` when there is none.
pub open spec fn last_of_type(nals: Seq<Seq<u8>>, t: int, prev: Option<Seq<u8>>) -> Option<Seq<u8>>
    decreases nals.len(),
{
    if nals.len() == 0 {
        prev
    } else {
        let n = nals.last();
        if n.len() > 0 && nal_type(n) == t {
            Some(n)
        } else {
            last_of_type(nals.drop_last(), t, prev)
        }
    }
}

/// Reads AVCC framing back into NAL units; `None` when the bytes are not a
/// sequence of complete length-prefixed units.
#[verifier::opaque]
pub open spec fn parse_avcc(b: Seq<u8>) -> Option<Seq<Seq<u8>>>
    decreases b.len(),
{
    if b.len() == 0 {
        Some(seq![])
    } else if b.len() < 4 {
        None
    } else {
        let n = be32_value(b[0], b[1], b[2], b[3]) as int;
        if n > b.len() - 4 {
            None
        } else {
            match parse_avcc(b.subrange(4 + n, b.len() as int)) {
                Some(rest) => Some(seq![b.subrange(4, 4 + n)] + rest),
                None => None,
            }
        }
    }
}

/// The state of a converter: the AVCC data of the last conversion and the
/// parameter sets seen and not yet taken.
pub struct AvccState {
    pub avcc_data: Seq<u8>,
    pub sps: Option<Seq<u8>>,
    pub pps: Option<Seq<u8>>,
}

/// The state after one NAL unit: a parameter set replaces the stored one of
/// its kind, any other non-empty unit is appended in AVCC framing.
pub open spec fn after_nal(s: AvccState, nal: Seq<u8>) -> AvccState {
    if nal.len() == 0 {
        s
    } else if nal_type(nal) == NAL_TYPE_SPS {
        AvccState { avcc_data: s.avcc_data, sps: Some(nal), pps: s.pps }
    } else if nal_type(nal) == NAL_TYPE_PPS {
        AvccState { avcc_data: s.avcc_data, sps: s.sps, pps: Some(nal) }
    } else {
        AvccState { avcc_data: s.avcc_data + avcc_unit(nal), sps: s.sps, pps: s.pps }
    }
}

/// The state after the NAL units `nals`, taken in order.
pub open spec fn after_nals(s: AvccState, nals: Seq<Seq<u8>>) -> AvccState
    decreases nals.len(),
{
    if nals.len() == 0 {
        s
    } else {
        after_nal(after_nals(s, nals.drop_last()), nals.last())
    }
}

/// The state after converting the Annex B stream `d`: the AVCC data holds
/// only what `d` gives, the parameter sets are carried over unless `d`
/// brings new ones.
pub open spec fn after_convert(s: AvccState, d: Seq<u8>) -> AvccState {
    after_nals(AvccState { avcc_data: seq![], sps: s.sps, pps: s.pps }, annex_b_nal_units(d))
}

pub open spec fn opt_bytes(o: Option<Vec<u8>>) -> Option<Seq<u8>> {
    match o {
        Some(v) => Some(v@),
        None => None,
    }
}

/// Converts H.264 Annex B byte streams (start-code delimited) into AVCC
/// framing (length-prefixed), keeping the parameter sets apart.
pub struct AvccConverter {
    pub avcc_data: Vec<u8>,
    pub sps: Option<Vec<u8>>,
    pub pps: Option<Vec<u8>>,
}

impl View for AvccConverter {
    type V = AvccState;

    open spec fn view(&self) -> AvccState {
        AvccState { avcc_data: self.avcc_data@, sps: opt_bytes(self.sps), pps: opt_bytes(self.pps) }
    }
}

impl AvccConverter {
    /// A converter with no data and no parameter sets.
    pub fn new() -> (res: Self)
        ensures
            res@ == (AvccState { avcc_data: seq![], sps: None, pps: None }),
    {
        AvccConverter { avcc_data: Vec::with_capacity(AVCC_BUFFER_CAPACITY), sps: None, pps: None }
    }

    /// Converts one Annex B buffer: the AVCC data is replaced by the AVCC
    /// framing of the buffer's NAL units other than parameter sets, and each
    /// sequence or picture parameter set found replaces the stored one.
    pub fn convert(&mut self, raw_h264: &[u8])
        ensures
            final(self)@ == after_convert(old(self)@, raw_h264@),
    {
        self.avcc_data.clear();
        let ghost s0 = self@;
        assert(s0 == AvccState { avcc_data: seq![], sps: old(self)@.sps, pps: old(self)@.pps });
        let ghost d = raw_h264@;
        let len = raw_h264.len();
        let mut i: usize = 0;
        let mut last_nal_start: usize = 0;
        let ghost mut done: Seq<Seq<u8>> = seq![];
        assert(done + annex_b_nal_units(d) =~= annex_b_nal_units(d));
        while len >= 3 && i < len - 2
            invariant
                len == d.len(),
                d == raw_h264@,
                last_nal_start <= i <= len,
                done + nal_units_from(d, i as int, last_nal_start as int) == annex_b_nal_units(d),
                self@ == after_nals(s0, done),
            decreases len - i,
        {
            let ghost old_i = i;
            let ghost old_done = done;
            let ghost rest = nal_units_from(d, i as int, last_nal_start as int);
            if raw_h264[i] != 0 || raw_h264[i + 1] != 0 {
                assert(start_code_len(d, i as int) == 0);
                i += 1;
            } else if raw_h264[i + 2] == 1 {
                assert(start_code_len(d, i as int) == 3);
                if i > last_nal_start {
                    let nal = slice_subrange(raw_h264, last_nal_start, i);
                    self.process_nal(nal);
                    proof {
                        done = done.push(nal@);
                        assert(done.drop_last() =~= old_done);
                        assert(rest == seq![nal@] + nal_units_from(d, i + 3, i + 3));
                        assert(done + nal_units_from(d, i + 3, i + 3) =~= old_done + rest);
                    }
                }
                last_nal_start = i + 3;
                i += 3;
            } else if i + 3 < len && raw_h264[i + 2] == 0 && raw_h264[i + 3] == 1 {
                assert(start_code_len(d, i as int) == 4);
                if i > last_nal_start {
                    let nal = slice_subrange(raw_h264, last_nal_start, i);
                    self.process_nal(nal);
                    proof {
                        done = done.push(nal@);
                        assert(done.drop_last() =~= old_done);
                        assert(rest == seq![nal@] + nal_units_from(d, i + 4, i + 4));
                        assert(done + nal_units_from(d, i + 4, i + 4) =~= old_done + rest);
                    }
                }
                last_nal_start = i + 4;
                i += 4;
            } else {
                assert(start_code_len(d, i as int) == 0);
                i += 1;
            }
        }
        let ghost old_done = done;
        if last_nal_start < len {
            let nal = slice_subrange(raw_h264, last_nal_start, len);
            self.process_nal(nal);
            proof {
                done = done.push(nal@);
                assert(done.drop_last() =~= old_done);
                assert(nal_units_from(d, i as int, last_nal_start as int) == seq![nal@]);
                assert(done =~= old_done + seq![nal@]);
            }
        } else {
            assert(nal_units_from(d, i as int, last_nal_start as int) == Seq::<Seq<u8>>::empty());
            assert(done =~= old_done + Seq::<Seq<u8>>::empty());
        }
    }

    /// Hands out the AVCC data of the last conversion and leaves an empty
    /// buffer in its place.
    pub fn take_avcc_data(&mut self) -> (res: Vec<u8>)
        ensures
            res@ == old(self)@.avcc_data,
            final(self)@ == (AvccState { avcc_data: seq![], sps: old(self)@.sps, pps: old(self)@.pps }),
    {
        let mut fresh: Vec<u8> = Vec::with_capacity(AVCC_BUFFER_CAPACITY);
        std::mem::swap(&mut fresh, &mut self.avcc_data);
        fresh
    }

    /// Hands out the stored sequence parameter set, if any, and forgets it.
    pub fn take_sps(&mut self) -> (res: Option<Vec<u8>>)
        ensures
            opt_bytes(res) == old(self)@.sps,
            final(self)@ == (AvccState { avcc_data: old(self)@.avcc_data, sps: None, pps: old(self)@.pps }),
    {
        self.sps.take()
    }

    /// Hands out the stored picture parameter set, if any, and forgets it.
    pub fn take_pps(&mut self) -> (res: Option<Vec<u8>>)
        ensures
            opt_bytes(res) == old(self)@.pps,
            final(self)@ == (AvccState { avcc_data: old(self)@.avcc_data, sps: old(self)@.sps, pps: None }),
    {
        self.pps.take()
    }

    /// Takes one NAL unit: an empty unit changes nothing, a sequence or
    /// picture parameter set replaces the stored one of its kind, any other
    /// unit is appended to the AVCC data behind its 32-bit big-endian length.
    pub fn process_nal(&mut self, nal: &[u8])
        ensures
            final(self)@ == after_nal(old(self)@, nal@),
    {
        if nal.len() == 0 {
            return ;
        }
        let first = nal[0];
        let kind = first & 0x1F;
        assert(first & 0x1F == first % 32) by (bit_vector);
        if kind == NAL_TYPE_SPS {
            self.sps = Some(slice_to_vec(nal));
            return ;
        }
        if kind == NAL_TYPE_PPS {
            self.pps = Some(slice_to_vec(nal));
            return ;
        }
        let nal_len = #[verifier::truncate] (nal.len() as u32);
        self.avcc_data.push(#[verifier::truncate] ((nal_len >> 24u32) as u8));
        self.avcc_data.push(#[verifier::truncate] ((nal_len >> 16u32) as u8));
        self.avcc_data.push(#[verifier::truncate] ((nal_len >> 8u32) as u8));
        self.avcc_data.push(#[verifier::truncate] (nal_len as u8));
        let ghost with_prefix = self.avcc_data@;
        self.avcc_data.extend_from_slice(nal);
        assert forall|i: int| 0 <= i < nal@.len() implies self.avcc_data@[with_prefix.len() + i] == nal@[i] by {
            assert(cloned::<u8>(nal@[i], self.avcc_data@[with_prefix.len() + i]));
        }
        assert(self.avcc_data@ =~= with_prefix + nal@);
        assert(with_prefix =~= old(self)@.avcc_data + be32(nal@.len() as u32));
        assert(nal_type(nal@) != NAL_TYPE_SPS);
        assert(nal_type(nal@) != NAL_TYPE_PPS);
        assert(self@.avcc_data == old(self)@.avcc_data + avcc_unit(nal@));
        assert(self@.sps == old(self)@.sps);
    }
}

proof fn lemma_avcc_frame_push(a: Seq<Seq<u8>>, x: Seq<u8>)
    ensures
        avcc_frame(a.push(x)) == avcc_frame(a) + avcc_unit(x),
    decreases a.len(),
{
    if a.len() == 0 {
        assert(a.push(x).drop_first() =~= a);
        assert(avcc_frame(a.push(x)) == avcc_unit(x) + avcc_frame(a.push(x).drop_first()));
        assert(avcc_frame(a) == Seq::<u8>::empty());
        assert(avcc_frame(a.push(x)) =~= avcc_unit(x));
    } else {
        assert(a.push(x).drop_first() =~= a.drop_first().push(x));
        lemma_avcc_frame_push(a.drop_first(), x);
        assert(avcc_frame(a.push(x)) =~= avcc_frame(a) + avcc_unit(x));
    }
}

proof fn lemma_video_units_push(a: Seq<Seq<u8>>, x: Seq<u8>)
    ensures
        video_units(a.push(x)) == if x.len() > 0 && !is_parameter_set(x) {
            video_units(a).push(x)
        } else {
            video_units(a)
        },
    decreases a.len(),
{
    if a.len() == 0 {
        assert(a.push(x).drop_first() =~= a);
        assert(video_units(a) == Seq::<Seq<u8>>::empty());
        assert(video_units(a.push(x)) =~= (if x.len() > 0 && !is_parameter_set(x) {
            video_units(a).push(x)
        } else {
            video_units(a)
        }));
    } else {
        assert(a.push(x).drop_first() =~= a.drop_first().push(x));
        lemma_video_units_push(a.drop_first(), x);
        assert(video_units(a.push(x)) =~= (if x.len() > 0 && !is_parameter_set(x) {
            video_units(a).push(x)
        } else {
            video_units(a)
        }));
    }
}

/// Processing NAL units in order appends the AVCC framing of the units that
/// are not parameter sets, and leaves as parameter sets the last ones seen
/// (or the previous ones, when none is seen).
pub proof fn lemma_after_nals(s: AvccState, nals: Seq<Seq<u8>>)
    ensures
        after_nals(s, nals) == (AvccState {
            avcc_data: s.avcc_data + avcc_frame(video_units(nals)),
            sps: last_of_type(nals, NAL_TYPE_SPS as int, s.sps),
            pps: last_of_type(nals, NAL_TYPE_PPS as int, s.pps),
        }),
    decreases nals.len(),
{
    if nals.len() == 0 {
        assert(s.avcc_data + avcc_frame(video_units(nals)) =~= s.avcc_data);
    } else {
        let init = nals.drop_last();
        let x = nals.last();
        assert(init.push(x) =~= nals);
        lemma_after_nals(s, init);
        lemma_video_units_push(init, x);
        if x.len() > 0 && !is_parameter_set(x) {
            lemma_avcc_frame_push(video_units(init), x);
            assert(s.avcc_data + avcc_frame(video_units(init)) + avcc_unit(x) =~= s.avcc_data
                + avcc_frame(video_units(nals)));
        }
    }
}

proof fn lemma_be32_roundtrip(n: u32)
    ensures
        be32_value(be32(n)[0], be32(n)[1], be32(n)[2], be32(n)[3]) == n,
{
    let b0 = (n >> 24u32) as u8;
    let b1 = (n >> 16u32) as u8;
    let b2 = (n >> 8u32) as u8;
    let b3 = n as u8;
    assert(((b0 as u32) << 24u32) | ((b1 as u32) << 16u32) | ((b2 as u32) << 8u32) | (b3 as u32)
        == n) by (bit_vector)
        requires
            b0 == (n >> 24u32) as u8,
            b1 == (n >> 16u32) as u8,
            b2 == (n >> 8u32) as u8,
            b3 == n as u8,
    ;
}

proof fn lemma_parse_avcc_step(b: Seq<u8>)
    requires
        b.len() >= 4,
        be32_value(b[0], b[1], b[2], b[3]) <= b.len() - 4,
    ensures
        ({
            let n = be32_value(b[0], b[1], b[2], b[3]) as int;
            parse_avcc(b) == match parse_avcc(b.subrange(4 + n, b.len() as int)) {
                Some(r) => Some(seq![b.subrange(4, 4 + n)] + r),
                None => None,
            }
        }),
{
    reveal(parse_avcc);
}

proof fn lemma_parse_avcc_unit(x: Seq<u8>, tail: Seq<u8>)
    requires
        x.len() <= u32::MAX,
    ensures
        parse_avcc(avcc_unit(x) + tail) == match parse_avcc(tail) {
            Some(r) => Some(seq![x] + r),
            None => None,
        },
{
    let b = avcc_unit(x) + tail;
    let n = x.len() as u32;
    lemma_be32_roundtrip(n);
    assert(b[0] == be32(n)[0] && b[1] == be32(n)[1] && b[2] == be32(n)[2] && b[3] == be32(n)[3]);
    assert(be32_value(b[0], b[1], b[2], b[3]) == x.len());
    lemma_parse_avcc_step(b);
    assert(b.subrange(4, 4 + x.len() as int) =~= x);
    assert(b.subrange(4 + x.len() as int, b.len() as int) =~= tail);
}

/// AVCC framing can be read back: the length prefixes delimit exactly the
/// units that were framed, when no unit is longer than 2^32 - 1 bytes.
pub proof fn lemma_avcc_frame_roundtrip(nals: Seq<Seq<u8>>)
    requires
        forall|k: int| 0 <= k < nals.len() ==> #[trigger] nals[k].len() <= u32::MAX,
    ensures
        parse_avcc(avcc_frame(nals)) == Some(nals),
    decreases nals.len(),
{
    if nals.len() == 0 {
        reveal(parse_avcc);
        assert(nals =~= Seq::<Seq<u8>>::empty());
    } else {
        let rest = nals.drop_first();
        assert(avcc_frame(nals) == avcc_unit(nals[0]) + avcc_frame(rest));
        assert forall|k: int| 0 <= k < rest.len() implies #[trigger] rest[k].len() <= u32::MAX by {
            assert(rest[k] == nals[k + 1]);
        }
        lemma_avcc_frame_roundtrip(rest);
        assert(nals[0].len() <= u32::MAX);
        lemma_parse_avcc_unit(nals[0], avcc_frame(rest));
        assert(seq![nals[0]] + rest =~= nals);
    }
}

proof fn lemma_units_from_bounded(d: Seq<u8>, i: int, start: int)
    requires
        0 <= start <= i,
    ensures
        forall|k: int|
            0 <= k < nal_units_from(d, i, start).len() ==> 0 < #[trigger] nal_units_from(
                d,
                i,
                start,
            )[k].len() <= d.len(),
    decreases d.len() - i,
{
    let all = nal_units_from(d, i, start);
    if i + 2 >= d.len() {
        if start < d.len() {
            assert(all == seq![d.subrange(start, d.len() as int)]);
            assert(all[0].len() == d.len() - start);
        } else {
            assert(all.len() == 0);
        }
    } else {
        let n = start_code_len(d, i);
        if n > 0 {
            lemma_units_from_bounded(d, i + n, i + n);
            let rest = nal_units_from(d, i + n, i + n);
            if i > start {
                assert(all == seq![d.subrange(start, i)] + rest);
                assert forall|k: int| 0 <= k < all.len() implies 0 < #[trigger] all[k].len()
                    <= d.len() by {
                    if k > 0 {
                        assert(all[k] == rest[k - 1]);
                    }
                }
            } else {
                assert(all == rest);
            }
        } else {
            lemma_units_from_bounded(d, i + 1, start);
            assert(all == nal_units_from(d, i + 1, start));
        }
    }
}

/// Every NAL unit of an Annex B stream is non-empty and no longer than the stream.
pub proof fn lemma_annex_b_units_bounded(d: Seq<u8>)
    ensures
        forall|k: int|
            0 <= k < annex_b_nal_units(d).len() ==> 0 < #[trigger] annex_b_nal_units(d)[k].len()
                <= d.len(),
{
    lemma_units_from_bounded(d, 0, 0);
}

/// What one conversion leaves: the AVCC data is the AVCC framing of the
/// stream's NAL units other than parameter sets, in stream order, whatever
/// the converter held before; the stored parameter sets are the last ones of
/// the stream, or the previous ones when the stream has none.
pub proof fn lemma_convert_result(s: AvccState, d: Seq<u8>)
    ensures
        after_convert(s, d).avcc_data == avcc_frame(video_units(annex_b_nal_units(d))),
        after_convert(s, d).sps == last_of_type(annex_b_nal_units(d), NAL_TYPE_SPS as int, s.sps),
        after_convert(s, d).pps == last_of_type(annex_b_nal_units(d), NAL_TYPE_PPS as int, s.pps),
{
    let s0 = AvccState { avcc_data: seq![], sps: s.sps, pps: s.pps };
    lemma_after_nals(s0, annex_b_nal_units(d));
    assert(s0.avcc_data + avcc_frame(video_units(annex_b_nal_units(d))) =~= avcc_frame(
        video_units(annex_b_nal_units(d)),
    ));
}

proof fn lemma_video_units_subset(nals: Seq<Seq<u8>>)
    ensures
        forall|k: int|
            0 <= k < video_units(nals).len() ==> exists|j: int|
                0 <= j < nals.len() && #[trigger] video_units(nals)[k] == nals[j],
    decreases nals.len(),
{
    if nals.len() > 0 {
        let rest = nals.drop_first();
        lemma_video_units_subset(rest);
        assert forall|k: int| 0 <= k < video_units(nals).len() implies exists|j: int|
            0 <= j < nals.len() && #[trigger] video_units(nals)[k] == nals[j] by {
            if nals[0].len() > 0 && !is_parameter_set(nals[0]) {
                if k == 0 {
                    assert(video_units(nals)[k] == nals[0]);
                } else {
                    assert(video_units(nals)[k] == video_units(rest)[k - 1]);
                    let j = choose|j: int| 0 <= j < rest.len() && video_units(rest)[k - 1] == rest[j];
                    assert(rest[j] == nals[j + 1]);
                }
            } else {
                let j = choose|j: int| 0 <= j < rest.len() && video_units(rest)[k] == rest[j];
                assert(rest[j] == nals[j + 1]);
            }
        }
    }
}

/// The AVCC data of a conversion reads back, unit by unit, as the stream's
/// NAL units other than parameter sets, for any stream shorter than 2^32 bytes.
pub proof fn lemma_convert_avcc_reads_back(s: AvccState, d: Seq<u8>)
    requires
        d.len() <= u32::MAX,
    ensures
        parse_avcc(after_convert(s, d).avcc_data) == Some(video_units(annex_b_nal_units(d))),
{
    let units = annex_b_nal_units(d);
    lemma_convert_result(s, d);
    lemma_annex_b_units_bounded(d);
    lemma_video_units_subset(units);
    let v = video_units(units);
    assert forall|k: int| 0 <= k < v.len() implies #[trigger] v[k].len() <= u32::MAX by {
        let j = choose|j: int| 0 <= j < units.len() && v[k] == units[j];
        assert(units[j].len() <= d.len());
    }
    lemma_avcc_frame_roundtrip(v);
}

/// The bytes `00 00 01` at index `j` of `s`.
pub open spec fn start_pattern_at(s: Seq<u8>, j: int) -> bool {
    0 <= j && j + 2 < s.len() && s[j] == 0 && s[j + 1] == 0 && s[j + 2] == 1
}

/// A NAL unit fit for Annex B framing: not empty, and free of the bytes
/// `00 00 01` that would read as a start code.
pub open spec fn annex_b_safe(nal: Seq<u8>) -> bool {
    nal.len() > 0 && forall|j: int| !#[trigger] start_pattern_at(nal, j)
}

/// The four-byte start code `00 00 00 01`.
pub open spec fn start_code4() -> Seq<u8> {
    seq![0u8, 0u8, 0u8, 1u8]
}

/// NAL units in Annex B framing, each behind a four-byte start code.
pub open spec fn annex_b_stream(nals: Seq<Seq<u8>>) -> Seq<u8>
    decreases nals.len(),
{
    if nals.len() == 0 {
        seq![]
    } else {
        start_code4() + nals[0] + annex_b_stream(nals.drop_first())
    }
}

/// Scanning inside a unit that holds no start pattern finds no start code
/// before the unit's end.
proof fn lemma_scan_through_unit(d: Seq<u8>, start: int, end: int, i: int)
    requires
        0 <= start <= i <= end <= d.len(),
        start < end,
        forall|j: int| start <= j && j + 2 < end ==> !#[trigger] start_pattern_at(d, j),
        end == d.len() || (end + 4 <= d.len() && d[end] == 0 && d[end + 1] == 0 && d[end + 2]
            == 0 && d[end + 3] == 1) || (end + 3 <= d.len() && d[end] == 0 && d[end + 1] == 0
            && d[end + 2] == 1 && d[end - 1] != 0),
    ensures
        end == d.len() ==> nal_units_from(d, i, start) == seq![d.subrange(start, end)],
        end < d.len() ==> nal_units_from(d, i, start) == nal_units_from(d, end, start),
    decreases end - i,
{
    if i == end {
    } else if i + 2 >= d.len() {
    } else {
        if d[i] == 0 && d[i + 1] == 0 {
            if d[i + 2] == 1 {
                assert(!start_pattern_at(d, i) || i + 2 >= end);
                if i + 2 >= end {
                    assert(i == end - 1 || i == end - 2);
                }
            }
            if i + 3 < d.len() && d[i + 2] == 0 && d[i + 3] == 1 {
                assert(!start_pattern_at(d, i + 1) || i + 3 >= end);
                if i + 3 >= end {
                    assert(i == end - 1 || i == end - 2 || i == end - 3);
                }
            }
        }
        assert(start_code_len(d, i) == 0);
        lemma_scan_through_unit(d, start, end, i + 1);
    }
}

#[verifier::spinoff_prover]
proof fn lemma_annex_b_stream_units(p: Seq<u8>, nals: Seq<Seq<u8>>)
    requires
        forall|k: int| 0 <= k < nals.len() ==> annex_b_safe(#[trigger] nals[k]),
    ensures
        nal_units_from(p + annex_b_stream(nals), p.len() as int, p.len() as int) == nals,
    decreases nals.len(),
{
    let d = p + annex_b_stream(nals);
    let b = p.len() as int;
    if nals.len() == 0 {
        assert(d =~= p);
        assert(nals =~= Seq::<Seq<u8>>::empty());
    } else {
        let n0 = nals[0];
        let rest = nals.drop_first();
        assert(annex_b_safe(n0));
        assert forall|k: int| 0 <= k < rest.len() implies annex_b_safe(#[trigger] rest[k]) by {
            assert(rest[k] == nals[k + 1]);
        }
        let p1 = p + start_code4();
        let p2 = p1 + n0;
        assert(d =~= p2 + annex_b_stream(rest));
        assert(d =~= p1 + (n0 + annex_b_stream(rest)));
        assert(d[b] == 0 && d[b + 1] == 0 && d[b + 2] == 0 && d[b + 3] == 1);
        assert(start_code_len(d, b) == 4);
        assert(nal_units_from(d, b, b) == nal_units_from(d, b + 4, b + 4));
        let start = b + 4;
        let end = start + n0.len();
        assert(d.subrange(start, end) =~= n0);
        assert forall|j: int| start <= j && j + 2 < end implies !#[trigger] start_pattern_at(
            d,
            j,
        ) by {
            if start_pattern_at(d, j) {
                assert(start_pattern_at(n0, j - start));
            }
        }
        lemma_annex_b_stream_units(p2, rest);
        if rest.len() == 0 {
            assert(annex_b_stream(rest) =~= Seq::<u8>::empty());
            assert(end == d.len());
            lemma_scan_through_unit(d, start, end, start);
            assert(seq![n0] =~= nals);
        } else {
            let r0 = rest[0];
            assert(annex_b_safe(r0));
            assert(annex_b_stream(rest) == start_code4() + r0 + annex_b_stream(rest.drop_first()));
            assert(d[end] == 0 && d[end + 1] == 0 && d[end + 2] == 0 && d[end + 3] == 1);
            lemma_scan_through_unit(d, start, end, start);
            assert(start_code_len(d, end) == 4);
            assert(nal_units_from(d, end, start) == seq![d.subrange(start, end)] + nal_units_from(
                d,
                end + 4,
                end + 4,
            ));
            assert(nal_units_from(d, end, end) == nal_units_from(d, end + 4, end + 4));
            assert(p2.len() == end);
            assert(seq![n0] + rest =~= nals);
        }
    }
}

/// Splitting an Annex B stream gives back the units it was made of, when
/// each unit is non-empty and holds no `00 00 01`.
pub proof fn lemma_annex_b_roundtrip(nals: Seq<Seq<u8>>)
    requires
        forall|k: int| 0 <= k < nals.len() ==> annex_b_safe(#[trigger] nals[k]),
    ensures
        annex_b_nal_units(annex_b_stream(nals)) == nals,
{
    let p = Seq::<u8>::empty();
    lemma_annex_b_stream_units(p, nals);
    assert(p + annex_b_stream(nals) =~= annex_b_stream(nals));
}

/// Converting an Annex B stream made of well-formed NAL units gives the
/// AVCC framing of exactly those units that are not parameter sets, in the
/// same order; the stored parameter sets become the stream's last ones.
pub proof fn lemma_convert_annex_b_stream(s: AvccState, nals: Seq<Seq<u8>>)
    requires
        forall|k: int| 0 <= k < nals.len() ==> annex_b_safe(#[trigger] nals[k]),
    ensures
        after_convert(s, annex_b_stream(nals)).avcc_data == avcc_frame(video_units(nals)),
        after_convert(s, annex_b_stream(nals)).sps == last_of_type(nals, NAL_TYPE_SPS as int, s.sps),
        after_convert(s, annex_b_stream(nals)).pps == last_of_type(nals, NAL_TYPE_PPS as int, s.pps),
{
    lemma_annex_b_roundtrip(nals);
    lemma_convert_result(s, annex_b_stream(nals));
}

/// The three-byte start code `00 00 01`.
pub open spec fn start_code3() -> Seq<u8> {
    seq![0u8, 0u8, 1u8]
}

/// The four-byte start code when `four` holds, the three-byte one otherwise.
pub open spec fn start_code(four: bool) -> Seq<u8> {
    if four {
        start_code4()
    } else {
        start_code3()
    }
}

/// NAL units in Annex B framing, unit `k` behind the four-byte start code
/// when `four[k]` holds and behind the three-byte one otherwise.
pub open spec fn annex_b_stream_with(four: Seq<bool>, nals: Seq<Seq<u8>>) -> Seq<u8>
    decreases nals.len(),
{
    if nals.len() == 0 {
        seq![]
    } else {
        start_code(four[0]) + nals[0] + annex_b_stream_with(four.drop_first(), nals.drop_first())
    }
}

/// One start code per unit, behind units that are fit for Annex B framing
/// and do not end with a zero byte.
pub open spec fn mixed_stream_parts(four: Seq<bool>, nals: Seq<Seq<u8>>) -> bool {
    &&& four.len() == nals.len()
    &&& forall|k: int|
        0 <= k < nals.len() ==> annex_b_safe(#[trigger] nals[k]) && nals[k].last() != 0
}

proof fn lemma_code_at(d: Seq<u8>, b: int, four: bool)
    requires
        0 <= b,
        b + start_code(four).len() <= d.len(),
        d.subrange(b, b + start_code(four).len()) == start_code(four),
    ensures
        start_code_len(d, b) == start_code(four).len(),
{
    let c = start_code(four);
    assert(d[b] == d.subrange(b, b + c.len())[0]);
    assert(d[b + 1] == d.subrange(b, b + c.len())[1]);
    assert(d[b + 2] == d.subrange(b, b + c.len())[2]);
    if four {
        assert(d[b + 3] == d.subrange(b, b + c.len())[3]);
    }
}

proof fn lemma_unit_before_code(d: Seq<u8>, start: int, end: int, four: bool)
    requires
        0 <= start < end,
        end + start_code(four).len() <= d.len(),
        d.subrange(end, end + start_code(four).len()) == start_code(four),
        d[end - 1] != 0,
        forall|j: int| start <= j && j + 2 < end ==> !#[trigger] start_pattern_at(d, j),
    ensures
        nal_units_from(d, start, start) == seq![d.subrange(start, end)] + nal_units_from(
            d,
            end,
            end,
        ),
{
    let c = start_code(four);
    lemma_code_at(d, end, four);
    assert(d[end] == d.subrange(end, end + c.len())[0]);
    assert(d[end + 1] == d.subrange(end, end + c.len())[1]);
    assert(d[end + 2] == d.subrange(end, end + c.len())[2]);
    if four {
        assert(d[end + 3] == d.subrange(end, end + c.len())[3]);
    }
    lemma_scan_through_unit(d, start, end, start);
    let n = c.len() as int;
    assert(nal_units_from(d, end, start) == seq![d.subrange(start, end)] + nal_units_from(
        d,
        end + n,
        end + n,
    ));
    assert(nal_units_from(d, end, end) == nal_units_from(d, end + n, end + n));
}

proof fn lemma_safe_unit_in_stream(d: Seq<u8>, start: int, n0: Seq<u8>)
    requires
        0 <= start,
        start + n0.len() <= d.len(),
        d.subrange(start, start + n0.len()) == n0,
        annex_b_safe(n0),
    ensures
        forall|j: int|
            start <= j && j + 2 < start + n0.len() ==> !#[trigger] start_pattern_at(d, j),
{
    assert forall|j: int| start <= j && j + 2 < start + n0.len() implies !#[trigger] start_pattern_at(
        d,
        j,
    ) by {
        if start_pattern_at(d, j) {
            assert(d[j] == n0[j - start] && d[j + 1] == n0[j - start + 1] && d[j + 2] == n0[j
                - start + 2]);
            assert(start_pattern_at(n0, j - start));
        }
    }
}

#[verifier::spinoff_prover]
proof fn lemma_mixed_stream_units(p: Seq<u8>, four: Seq<bool>, nals: Seq<Seq<u8>>)
    requires
        mixed_stream_parts(four, nals),
    ensures
        nal_units_from(p + annex_b_stream_with(four, nals), p.len() as int, p.len() as int)
            == nals,
    decreases nals.len(),
{
    let d = p + annex_b_stream_with(four, nals);
    let b = p.len() as int;
    if nals.len() == 0 {
        assert(d =~= p);
        assert(nals =~= Seq::<Seq<u8>>::empty());
    } else {
        let n0 = nals[0];
        let c0 = start_code(four[0]);
        let rest = nals.drop_first();
        let rfour = four.drop_first();
        assert(annex_b_safe(n0) && n0.last() != 0);
        assert forall|k: int| 0 <= k < rest.len() implies annex_b_safe(#[trigger] rest[k])
            && rest[k].last() != 0 by {
            assert(rest[k] == nals[k + 1]);
        }
        assert(mixed_stream_parts(rfour, rest));
        let c = c0.len() as int;
        let tail = annex_b_stream_with(rfour, rest);
        let p1 = p + c0;
        let p2 = p1 + n0;
        assert(d =~= p2 + tail);
        assert(d =~= p + (c0 + (n0 + tail)));
        assert(d.subrange(b, b + c) =~= c0);
        lemma_code_at(d, b, four[0]);
        assert(nal_units_from(d, b, b) == nal_units_from(d, b + c, b + c));
        let start = b + c;
        let end = start + n0.len();
        assert(d.subrange(start, end) =~= n0);
        assert(d[end - 1] == n0.last());
        lemma_safe_unit_in_stream(d, start, n0);
        lemma_mixed_stream_units(p2, rfour, rest);
        assert(p2.len() == end);
        if rest.len() == 0 {
            assert(tail =~= Seq::<u8>::empty());
            lemma_scan_through_unit(d, start, end, start);
            assert(seq![n0] =~= nals);
        } else {
            let rc = start_code(rfour[0]);
            assert(tail == rc + rest[0] + annex_b_stream_with(
                rfour.drop_first(),
                rest.drop_first(),
            ));
            assert(d.subrange(end, end + rc.len()) =~= rc);
            lemma_unit_before_code(d, start, end, rfour[0]);
            assert(seq![n0] + rest =~= nals);
        }
    }
}

/// Splitting an Annex B stream whose start codes mix three- and four-byte
/// forms gives back its units, when each unit is non-empty, holds no
/// `00 00 01` and does not end with a zero byte.
pub proof fn lemma_annex_b_mixed_roundtrip(four: Seq<bool>, nals: Seq<Seq<u8>>)
    requires
        mixed_stream_parts(four, nals),
    ensures
        annex_b_nal_units(annex_b_stream_with(four, nals)) == nals,
{
    let p = Seq::<u8>::empty();
    lemma_mixed_stream_units(p, four, nals);
    assert(p + annex_b_stream_with(four, nals) =~= annex_b_stream_with(four, nals));
}

/// Converting such a mixed Annex B stream gives the AVCC framing of exactly
/// its units that are not parameter sets, in order; the stored parameter
/// sets become the stream's last ones, or stay as they were.
pub proof fn lemma_convert_mixed_stream(s: AvccState, four: Seq<bool>, nals: Seq<Seq<u8>>)
    requires
        mixed_stream_parts(four, nals),
    ensures
        after_convert(s, annex_b_stream_with(four, nals)).avcc_data == avcc_frame(
            video_units(nals),
        ),
        after_convert(s, annex_b_stream_with(four, nals)).sps == last_of_type(
            nals,
            NAL_TYPE_SPS as int,
            s.sps,
        ),
        after_convert(s, annex_b_stream_with(four, nals)).pps == last_of_type(
            nals,
            NAL_TYPE_PPS as int,
            s.pps,
        ),
{
    lemma_annex_b_mixed_roundtrip(four, nals);
    lemma_convert_result(s, annex_b_stream_with(four, nals));
}

/// Where the NAL units that a scan from index `i` finds lie in `d`: the
/// start and end index of each, when the unit being read began at `start`.
pub open spec fn nal_spans_from(d: Seq<u8>, i: int, start: int) -> Seq<(int, int)>
    decreases d.len() - i,
{
    if i + 2 >= d.len() {
        if start < d.len() {
            seq![(start, d.len() as int)]
        } else {
            seq![]
        }
    } else {
        let n = start_code_len(d, i);
        if n > 0 {
            let rest = nal_spans_from(d, i + n, i + n);
            if i > start {
                seq![(start, i)] + rest
            } else {
                rest
            }
        } else {
            nal_spans_from(d, i + 1, start)
        }
    }
}

/// Where the NAL units of an Annex B stream lie in it.
pub open spec fn annex_b_nal_spans(d: Seq<u8>) -> Seq<(int, int)> {
    nal_spans_from(d, 0, 0)
}

/// Spans that cut `units` out of `d`, in increasing order, without overlap,
/// none starting before `start`.
pub open spec fn spans_cut(d: Seq<u8>, units: Seq<Seq<u8>>, spans: Seq<(int, int)>, start: int) -> bool {
    &&& units.len() == spans.len()
    &&& forall|k: int|
        0 <= k < spans.len() ==> start <= (#[trigger] spans[k]).0 && spans[k].0 < spans[k].1
            <= d.len() && units[k] == d.subrange(spans[k].0, spans[k].1)
    &&& forall|k: int, l: int| 0 <= k < l < spans.len() ==> (#[trigger] spans[k]).1 <= (
    #[trigger] spans[l]).0
}

proof fn lemma_spans_from(d: Seq<u8>, i: int, start: int)
    requires
        0 <= start <= i,
    ensures
        spans_cut(d, nal_units_from(d, i, start), nal_spans_from(d, i, start), start),
    decreases d.len() - i,
{
    let u = nal_units_from(d, i, start);
    let sp = nal_spans_from(d, i, start);
    if i + 2 >= d.len() {
    } else {
        let n = start_code_len(d, i);
        if n > 0 {
            lemma_spans_from(d, i + n, i + n);
            let ru = nal_units_from(d, i + n, i + n);
            let rsp = nal_spans_from(d, i + n, i + n);
            if i > start {
                assert(u == seq![d.subrange(start, i)] + ru);
                assert(sp == seq![(start, i)] + rsp);
                assert forall|k: int| 0 <= k < sp.len() implies start <= (#[trigger] sp[k]).0
                    && sp[k].0 < sp[k].1 <= d.len() && u[k] == d.subrange(sp[k].0, sp[k].1) by {
                    if k > 0 {
                        assert(sp[k] == rsp[k - 1]);
                        assert(u[k] == ru[k - 1]);
                    }
                }
                assert forall|k: int, l: int| 0 <= k < l < sp.len() implies (#[trigger] sp[k]).1
                    <= (#[trigger] sp[l]).0 by {
                    assert(sp[l] == rsp[l - 1]);
                    if k > 0 {
                        assert(sp[k] == rsp[k - 1]);
                    }
                }
            } else {
                assert(u == ru);
                assert(sp == rsp);
            }
        } else {
            lemma_spans_from(d, i + 1, start);
        }
    }
}

/// The NAL units of an Annex B stream are pieces of it: non-empty, taken
/// in increasing order and without overlap. So the units other than
/// parameter sets, whose AVCC framing a conversion gives, are too.
pub proof fn lemma_nal_units_are_slices(d: Seq<u8>)
    ensures
        spans_cut(d, annex_b_nal_units(d), annex_b_nal_spans(d), 0),
{
    lemma_spans_from(d, 0, 0);
}

/// The units kept for AVCC framing are non-empty and none is a parameter set.
pub proof fn lemma_video_units_kinds(nals: Seq<Seq<u8>>)
    ensures
        forall|k: int|
            0 <= k < video_units(nals).len() ==> (#[trigger] video_units(nals)[k]).len() > 0
                && !is_parameter_set(video_units(nals)[k]),
    decreases nals.len(),
{
    if nals.len() > 0 {
        let rest = nals.drop_first();
        lemma_video_units_kinds(rest);
        let v = video_units(nals);
        assert forall|k: int| 0 <= k < v.len() implies (#[trigger] v[k]).len() > 0
            && !is_parameter_set(v[k]) by {
            if nals[0].len() > 0 && !is_parameter_set(nals[0]) {
                if k > 0 {
                    assert(v[k] == video_units(rest)[k - 1]);
                }
            } else {
                assert(v[k] == video_units(rest)[k]);
            }
        }
    }
}

/// What one NAL unit does to a converter: an empty unit nothing; a unit
/// whose type (the low five bits of its first byte) is 7 or 8 becomes the
/// stored sequence or picture parameter set and nothing else changes; any
/// other unit is appended to the AVCC data behind its length as a 32-bit
/// big-endian number, and nothing else changes.
pub proof fn lemma_after_nal_cases(s: AvccState, nal: Seq<u8>)
    ensures
        nal.len() == 0 ==> after_nal(s, nal) == s,
        nal.len() > 0 && nal[0] % 32 == 7 ==> after_nal(s, nal) == (AvccState {
            avcc_data: s.avcc_data,
            sps: Some(nal),
            pps: s.pps,
        }),
        nal.len() > 0 && nal[0] % 32 == 8 ==> after_nal(s, nal) == (AvccState {
            avcc_data: s.avcc_data,
            sps: s.sps,
            pps: Some(nal),
        }),
        nal.len() > 0 && nal[0] % 32 != 7 && nal[0] % 32 != 8 ==> after_nal(s, nal) == (
        AvccState {
            avcc_data: s.avcc_data + be32(nal.len() as u32) + nal,
            sps: s.sps,
            pps: s.pps,
        }),
{
    if nal.len() > 0 && nal[0] % 32 != 7 && nal[0] % 32 != 8 {
        assert(s.avcc_data + avcc_unit(nal) =~= s.avcc_data + be32(nal.len() as u32) + nal);
    }
}

/// The last unit of a type in two runs of units is the last one in the
/// second run, or else the last one in the first.
pub proof fn lemma_last_of_type_concat(a: Seq<Seq<u8>>, b: Seq<Seq<u8>>, t: int, prev: Option<Seq<u8>>)
    ensures
        last_of_type(a + b, t, prev) == last_of_type(b, t, last_of_type(a, t, prev)),
    decreases b.len(),
{
    if b.len() == 0 {
        assert(a + b =~= a);
    } else {
        assert((a + b).drop_last() =~= a + b.drop_last());
        assert((a + b).last() == b.last());
        lemma_last_of_type_concat(a, b.drop_last(), t, prev);
    }
}

} // verus!

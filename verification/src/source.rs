//! The source scheduler: turns a decoded media track into a rate-matched
//! stream of stereo frames with exact resampler-delay compensation.
//!
//! Decoding and resampling are outside work performed by the caller; this
//! engine owns every decision of the streaming algorithm: when another
//! packet is needed, when and with which input the resampler runs, how the
//! end-of-stream flush is trimmed by exact input/output rate accounting, and
//! how the fixed resampler startup delay is discarded exactly once per open
//! or seek. Samples travel through as opaque stereo frames; the engine never
//! inspects them.

use vstd::prelude::*;
use vstd::arithmetic::div_mod::{lemma_fundamental_div_mod, lemma_mod_division_less_than_divisor};

verus! {

/// One stereo sample pair, carried as two opaque bit patterns.
pub type StereoFrame = (u32, u32);

#[derive(Debug, PartialEq, Eq)]
pub enum SourceException {
    InvalidFile,
    IncorrectFile,
}

/// A delivered portion of the stream: `Continue` carries exactly the
/// requested frame count, `Break` is the terminal chunk (fewer frames than
/// requested, but some), after which the device must be drained.
#[derive(Debug, PartialEq, Eq)]
pub enum SourceStream {
    Continue(Vec<StereoFrame>),
    Break(Vec<StereoFrame>),
}

/// What the probe reports of one track of the container.
#[derive(Clone, Copy, Debug)]
pub struct TrackDescriptor {
    pub id: u32,
    pub codec_is_null: bool,
    pub channel_count: Option<u32>,
    pub sample_rate: Option<u32>,
    /// Timestamp-to-seconds ratio: (numerator, denominator).
    pub time_base: Option<(u32, u32)>,
    pub frame_count: Option<u64>,
}

/// The next piece of outside work the streaming algorithm needs, or the
/// completed outcome of the active request.
#[derive(Debug, PartialEq, Eq)]
pub enum SourceStep {
    /// The request is complete.
    Stream(Result<Option<SourceStream>, SourceException>),
    /// Decode the next packet and report it back.
    NeedPacket,
    /// Feed exactly these frames through the resampler.
    Resample(Vec<StereoFrame>),
    /// Shrink the resampler chunk to this input's length, then feed it.
    ResampleTail(Vec<StereoFrame>),
    /// Run one partial (input-less) flush of the resampler.
    Flush,
}

/// The mathematical state of the engine.
#[verifier::ext_equal]
pub struct SourceModel {
    pub track_id: int,
    pub native_rate: int,
    pub target_rate: int,
    pub duration: int,
    pub tb_numer: int,
    pub tb_denom: int,
    pub chunk: int,
    pub delay: int,
    pub trimmed: bool,
    pub input_frames: int,
    pub output_frames: int,
    pub pending: Seq<StereoFrame>,
    pub buffered: Seq<StereoFrame>,
    pub eos: bool,
    pub requested: Option<int>,
}

pub struct SourceScheduler {
    track_id: u32,
    sample_rate: u32,
    output_sample_rate: u32,
    duration: u32,
    tb_numer: u32,
    tb_denom: u32,
    resampler_chunk_size: usize,
    resampler_delay_count: usize,
    has_trimmed_delay: bool,
    resampler_input_count: u64,
    resampler_output_count: u64,
    packet_buffer: Vec<StereoFrame>,
    source_buffer: Vec<StereoFrame>,
    end_of_stream: bool,
    requested_frame_count: Option<usize>,
}

/// Whole seconds of a track position measured in container timestamps.
pub open spec fn timestamp_seconds(ts: int, numer: int, denom: int) -> int {
    ts * numer / denom
}

/// The millisecond remainder of that position.
pub open spec fn timestamp_millis(ts: int, numer: int, denom: int) -> int {
    (ts * numer) % denom * 1000 / denom
}

/// The index of the first track whose codec is usable.
pub open spec fn first_decodable_index(tracks: Seq<TrackDescriptor>, i: int) -> Option<int>
    decreases tracks.len() - i,
{
    if i < 0 || i >= tracks.len() {
        None
    } else if !tracks[i].codec_is_null {
        Some(i)
    } else {
        first_decodable_index(tracks, i + 1)
    }
}

/// A track the source scheduler accepts: exactly two channels, a sample
/// rate within 44.1-192 kHz, and enough header data to compute a duration.
pub open spec fn eligible_track(t: TrackDescriptor) -> bool {
    &&& t.channel_count == Some(2u32)
    &&& match t.sample_rate {
        Some(r) => 44100 <= r <= 192000,
        None => false,
    }
    &&& match t.time_base {
        Some((numer, denom)) => denom >= 1,
        None => false,
    }
    &&& t.frame_count is Some
}

/// The frame count the active request must deliver.
pub open spec fn requested_count(m: SourceModel) -> int {
    match m.requested {
        Some(k) => k,
        None => 0,
    }
}

/// End-of-stream accounting: more output (beyond the startup delay) is
/// still owed when the produced frames, measured at the native rate, fall
/// short of the consumed input frames measured at the target rate.
pub open spec fn flush_shortfall(m: SourceModel) -> bool {
    (m.output_frames - m.delay) * m.native_rate < m.input_frames * m.target_rate
}

/// After the final flush, the exact number of buffered frames that are
/// still valid: total valid output is `floor(input * target / native)`
/// plus the startup delay, of which `output - len(buffered)` were already
/// consumed.
pub open spec fn flush_keep_len(m: SourceModel) -> int {
    m.buffered.len() + m.input_frames * m.target_rate / m.native_rate + m.delay - m.output_frames
}

/// The frames a completing request hands out: the first `k` buffered
/// frames, with the startup delay discarded from their front exactly when
/// it was not trimmed before.
pub open spec fn delivered_frames(m: SourceModel, k: int) -> Seq<StereoFrame> {
    if m.trimmed {
        m.buffered.subrange(0, k)
    } else {
        m.buffered.subrange(m.delay, k)
    }
}

pub open spec fn delivery_ok(m: SourceModel, k: int) -> bool {
    m.trimmed || k > m.delay
}

/// How a completing request relates the engine's states and its result;
/// `cont` tells a full delivery from a terminal one.
pub open spec fn delivery_rel(
    m: SourceModel,
    mp: SourceModel,
    r: Result<Option<SourceStream>, SourceException>,
    k: int,
    cont: bool,
) -> bool {
    &&& mp == (SourceModel {
        buffered: m.buffered.skip(k),
        trimmed: true,
        requested: None,
        ..m
    })
    &&& if delivery_ok(m, k) {
        if cont {
            r matches Ok(Some(SourceStream::Continue(v))) && v@ == delivered_frames(m, k)
        } else {
            r matches Ok(Some(SourceStream::Break(v))) && v@ == delivered_frames(m, k)
        }
    } else {
        r == Err::<Option<SourceStream>, SourceException>(SourceException::IncorrectFile)
    }
}

/// The complete step relation of the streaming algorithm, in its priority
/// order: deliver when enough frames are buffered; otherwise resample a
/// full chunk when one is pending; otherwise ask for a packet until the
/// stream ends; then resample the remaining partial chunk; then flush the
/// resampler while the rate accounting reports a shortfall; then deliver
/// what is left as the terminal chunk, or report exhaustion.
pub open spec fn next_step_rel(m: SourceModel, mp: SourceModel, step: SourceStep) -> bool {
    let k = requested_count(m);
    if m.buffered.len() >= k {
        step matches SourceStep::Stream(r) && delivery_rel(m, mp, r, k, true)
    } else if m.pending.len() >= m.chunk {
        &&& step matches SourceStep::Resample(input) && input@ == m.pending.subrange(0, m.chunk)
        &&& mp == (SourceModel {
            pending: m.pending.skip(m.chunk),
            input_frames: m.input_frames + m.chunk,
            ..m
        })
    } else if !m.eos {
        &&& step is NeedPacket
        &&& mp == m
    } else if m.pending.len() > 0 {
        &&& step matches SourceStep::ResampleTail(input) && input@ == m.pending
        &&& mp == (SourceModel {
            pending: Seq::empty(),
            chunk: m.pending.len() as int,
            input_frames: m.input_frames + m.pending.len(),
            ..m
        })
    } else if flush_shortfall(m) {
        &&& step is Flush
        &&& mp == m
    } else if m.buffered.len() > 0 {
        step matches SourceStep::Stream(r) && delivery_rel(m, mp, r, m.buffered.len() as int, false)
    } else {
        &&& step matches SourceStep::Stream(r) && r == Ok::<Option<SourceStream>, SourceException>(
            None,
        )
        &&& mp == (SourceModel { requested: None, ..m })
    }
}

/// Delay-trimming law: the first delivery after an open or a seek
/// discards exactly the resampler's reported output delay from the front
/// of the produced frames and marks the delay trimmed; any later delivery
/// hands the buffered frames out unchanged. The mark is cleared only by
/// `apply_seek` (or a fresh `open`), so the trim happens exactly once per
/// open or seek.
pub proof fn lemma_delay_trimmed_once(
    m: SourceModel,
    mp: SourceModel,
    r: Result<Option<SourceStream>, SourceException>,
    k: int,
    cont: bool,
    m2: SourceModel,
    mp2: SourceModel,
    r2: Result<Option<SourceStream>, SourceException>,
    k2: int,
    cont2: bool,
)
    requires
        !m.trimmed,
        delivery_ok(m, k),
        delivery_rel(m, mp, r, k, cont),
        0 <= m.delay <= k <= m.buffered.len(),
        m2.trimmed,
        delivery_rel(m2, mp2, r2, k2, cont2),
        0 <= k2 <= m2.buffered.len(),
    ensures
        delivered_frames(m, k) == m.buffered.subrange(m.delay, k),
        delivered_frames(m, k).len() == k - m.delay,
        mp.trimmed,
        delivered_frames(m2, k2) == m2.buffered.subrange(0, k2),
        delivered_frames(m2, k2).len() == k2,
        mp2.trimmed,
{
}

/// Takes the first `k` frames out of `v`.
fn take_prefix(v: &mut Vec<StereoFrame>, k: usize) -> (out: Vec<StereoFrame>)
    requires
        k <= old(v)@.len(),
    ensures
        out@ == old(v)@.subrange(0, k as int),
        final(v)@ == old(v)@.skip(k as int),
{
    let mut tail = v.split_off(k);
    core::mem::swap(v, &mut tail);
    proof {
        assert(old(v)@.subrange(k as int, old(v)@.len() as int) =~= old(v)@.skip(k as int));
    }
    tail
}

/// The products of a frame counter with a sample rate stay far below the
/// 128-bit range.
proof fn lemma_rate_products_fit(o: int, i: int, d: int, n: int, t: int)
    requires
        0 <= o <= u64::MAX as int,
        0 <= i <= u64::MAX as int,
        0 <= d <= u64::MAX as int,
        0 < n <= 192000,
        0 < t <= 192000,
    ensures
        o * n <= u128::MAX as int,
        i * t <= u128::MAX as int,
        d * n <= u128::MAX as int,
        i * t + d * n <= u128::MAX as int,
        o * n >= 0,
        i * t >= 0,
        d * n >= 0,
{
    assert(o * n <= (u64::MAX as int) * 192000 && o * n >= 0) by (nonlinear_arith)
        requires
            0 <= o <= u64::MAX as int,
            0 < n <= 192000,
    ;
    assert(i * t <= (u64::MAX as int) * 192000 && i * t >= 0) by (nonlinear_arith)
        requires
            0 <= i <= u64::MAX as int,
            0 < t <= 192000,
    ;
    assert(d * n <= (u64::MAX as int) * 192000 && d * n >= 0) by (nonlinear_arith)
        requires
            0 <= d <= u64::MAX as int,
            0 < n <= 192000,
    ;
}

/// The shortfall test `(o - d) * n < i * t` is the subtraction-free
/// comparison `o * n < i * t + d * n`.
proof fn lemma_shortfall_rearranged(o: int, d: int, n: int, i: int, t: int)
    ensures
        ((o - d) * n < i * t) == (o * n < i * t + d * n),
{
    assert((o - d) * n == o * n - d * n) by (nonlinear_arith);
}

/// From `a * n < m` (with positive `n`) the quotient bound `a <= m / n`.
proof fn lemma_scaled_lt_div(a: int, m: int, n: int)
    requires
        n > 0,
        a * n < m,
    ensures
        a <= m / n,
{
    lemma_fundamental_div_mod(m, n);
    lemma_mod_division_less_than_divisor(m, n);
    if a > m / n {
        assert(a * n >= (m / n + 1) * n) by (nonlinear_arith)
            requires
                n > 0,
                a >= m / n + 1,
        ;
        assert((m / n + 1) * n == n * (m / n) + n) by (nonlinear_arith);
    }
}

/// From `a * n >= m` (with positive `n`) the quotient bound `a >= m / n`.
proof fn lemma_scaled_ge_div(a: int, m: int, n: int)
    requires
        n > 0,
        a * n >= m,
    ensures
        a >= m / n,
{
    lemma_fundamental_div_mod(m, n);
    lemma_mod_division_less_than_divisor(m, n);
    if a < m / n {
        assert(a * n <= (m / n - 1) * n) by (nonlinear_arith)
            requires
                n > 0,
                a <= m / n - 1,
        ;
        assert((m / n - 1) * n == n * (m / n) - n) by (nonlinear_arith);
    }
}

/// A dividend strictly below `b * d` has a quotient strictly below `b`.
proof fn lemma_div_strictly_below(x: int, d: int, b: int)
    requires
        d > 0,
        0 <= x,
        x < b * d,
    ensures
        x / d < b,
{
    lemma_fundamental_div_mod(x, d);
    lemma_mod_division_less_than_divisor(x, d);
    if x / d >= b {
        assert(d * (x / d) >= d * b) by (nonlinear_arith)
            requires
                d > 0,
                x / d >= b,
        ;
        assert(b * d == d * b) by (nonlinear_arith);
    }
}

impl SourceScheduler {
    pub closed spec fn model(self) -> SourceModel {
        SourceModel {
            track_id: self.track_id as int,
            native_rate: self.sample_rate as int,
            target_rate: self.output_sample_rate as int,
            duration: self.duration as int,
            tb_numer: self.tb_numer as int,
            tb_denom: self.tb_denom as int,
            chunk: self.resampler_chunk_size as int,
            delay: self.resampler_delay_count as int,
            trimmed: self.has_trimmed_delay,
            input_frames: self.resampler_input_count as int,
            output_frames: self.resampler_output_count as int,
            pending: self.packet_buffer@,
            buffered: self.source_buffer@,
            eos: self.end_of_stream,
            requested: match self.requested_frame_count {
                Some(k) => Some(k as int),
                None => None,
            },
        }
    }

    pub open spec fn wf(self) -> bool {
        &&& 44100 <= self.model().native_rate <= 192000
        &&& 44100 <= self.model().target_rate <= 192000
        &&& self.model().chunk >= 1
        &&& self.model().tb_denom >= 1
    }

    /// Selects the first decodable track, accepts it only if it is
    /// eligible, and computes the duration from its time base and frame
    /// count (whole seconds, truncated to 32 bits as the container header
    /// stores them). `chunk_size` and `delay` describe the freshly reset
    /// resampler: its fixed input chunk and its reported output delay.
    pub fn open(tracks: &Vec<TrackDescriptor>, chunk_size: usize, delay: usize) -> (result:
        Result<SourceScheduler, SourceException>)
        requires
            chunk_size >= 1,
        ensures
            match first_decodable_index(tracks@, 0) {
                None => result == Err::<SourceScheduler, SourceException>(
                    SourceException::InvalidFile,
                ),
                Some(i) => {
                    let t = tracks@[i];
                    if eligible_track(t) {
                        match result {
                            Ok(s) => {
                                &&& s.wf()
                                &&& s.model() == SourceModel {
                                    track_id: t.id as int,
                                    native_rate: t.sample_rate->Some_0 as int,
                                    target_rate: t.sample_rate->Some_0 as int,
                                    duration: timestamp_seconds(
                                        t.frame_count->Some_0 as int,
                                        t.time_base->Some_0.0 as int,
                                        t.time_base->Some_0.1 as int,
                                    ) % 0x1_0000_0000,
                                    tb_numer: t.time_base->Some_0.0 as int,
                                    tb_denom: t.time_base->Some_0.1 as int,
                                    chunk: chunk_size as int,
                                    delay: delay as int,
                                    trimmed: false,
                                    input_frames: 0,
                                    output_frames: 0,
                                    pending: Seq::empty(),
                                    buffered: Seq::empty(),
                                    eos: false,
                                    requested: None,
                                }
                            },
                            Err(_) => false,
                        }
                    } else {
                        result == Err::<SourceScheduler, SourceException>(
                            SourceException::InvalidFile,
                        )
                    }
                },
            },
    {
        let mut idx: usize = 0;
        while idx < tracks.len()
            invariant
                chunk_size >= 1,
                0 <= idx <= tracks@.len(),
                first_decodable_index(tracks@, 0) == first_decodable_index(tracks@, idx as int),
                forall|j: int| 0 <= j < idx ==> (#[trigger] tracks@[j]).codec_is_null,
            decreases tracks@.len() - idx,
        {
            if !tracks[idx].codec_is_null {
                let t = tracks[idx];
                proof {
                    assert(first_decodable_index(tracks@, idx as int) == Some(idx as int));
                }
                let rate_ok = match t.sample_rate {
                    Some(r) => 44100 <= r && r <= 192000,
                    None => false,
                };
                let channels_ok = match t.channel_count {
                    Some(c) => c == 2,
                    None => false,
                };
                let tb = match t.time_base {
                    Some(tb) => if tb.1 >= 1 {
                        Some(tb)
                    } else {
                        None
                    },
                    None => None,
                };
                match (rate_ok && channels_ok, tb, t.frame_count) {
                    (true, Some((numer, denom)), Some(frames)) => {
                        let rate = match t.sample_rate {
                            Some(r) => r,
                            None => 0,
                        };
                        proof {
                            assert((frames as int) * (numer as int) <= (u64::MAX as int) * (
                            u32::MAX as int)) by (nonlinear_arith)
                                requires
                                    0 <= frames as int <= u64::MAX as int,
                                    0 <= numer as int <= u32::MAX as int,
                            ;
                        }
                        let total: u128 = (frames as u128) * (numer as u128) / (denom as u128);
                        let duration = (total % 0x1_0000_0000) as u32;
                        let s = SourceScheduler {
                            track_id: t.id,
                            sample_rate: rate,
                            output_sample_rate: rate,
                            duration,
                            tb_numer: numer,
                            tb_denom: denom,
                            resampler_chunk_size: chunk_size,
                            resampler_delay_count: delay,
                            has_trimmed_delay: false,
                            resampler_input_count: 0,
                            resampler_output_count: 0,
                            packet_buffer: Vec::new(),
                            source_buffer: Vec::new(),
                            end_of_stream: false,
                            requested_frame_count: None,
                        };
                        proof {
                            assert(total as int == timestamp_seconds(
                                frames as int,
                                numer as int,
                                denom as int,
                            ));
                            assert(duration as int == (total as int) % 0x1_0000_0000);
                            assert(s.model() =~= SourceModel {
                                track_id: t.id as int,
                                native_rate: t.sample_rate->Some_0 as int,
                                target_rate: t.sample_rate->Some_0 as int,
                                duration: timestamp_seconds(
                                    t.frame_count->Some_0 as int,
                                    t.time_base->Some_0.0 as int,
                                    t.time_base->Some_0.1 as int,
                                ) % 0x1_0000_0000,
                                tb_numer: t.time_base->Some_0.0 as int,
                                tb_denom: t.time_base->Some_0.1 as int,
                                chunk: chunk_size as int,
                                delay: delay as int,
                                trimmed: false,
                                input_frames: 0,
                                output_frames: 0,
                                pending: Seq::empty(),
                                buffered: Seq::empty(),
                                eos: false,
                                requested: None,
                            });
                        }
                        return Ok(s);
                    },
                    _ => {
                        return Err(SourceException::InvalidFile);
                    },
                }
            }
            idx = idx + 1;
            proof {
                assert(first_decodable_index(tracks@, idx - 1) == first_decodable_index(
                    tracks@,
                    idx as int,
                ));
            }
        }
        Err(SourceException::InvalidFile)
    }

    pub fn get_track_id(&self) -> (id: u32)
        ensures
            id as int == self.model().track_id,
    {
        self.track_id
    }

    pub fn get_duration(&self) -> (d: u32)
        ensures
            d as int == self.model().duration,
    {
        self.duration
    }

    pub fn get_output_sample_rate(&self) -> (r: u32)
        ensures
            r as int == self.model().target_rate,
    {
        self.output_sample_rate
    }

    /// True once the startup delay of the current open/seek was trimmed;
    /// a device rebuild must then restore the playback position by an
    /// additional seek before the output rate changes.
    pub fn determine_additional_seek_necessity(&self) -> (b: bool)
        ensures
            b == self.model().trimmed,
    {
        self.has_trimmed_delay
    }

    /// Opens a stream request. On the very first request after open or
    /// seek the engine asks for `expected + delay` frames internally, so
    /// that the resampler's fixed startup delay can be trimmed exactly once.
    pub fn begin_request(&mut self, expected_frame_count: u32)
        requires
            old(self).wf(),
            old(self).model().requested is None,
            expected_frame_count as int + old(self).model().delay <= usize::MAX as int,
        ensures
            final(self).wf(),
            final(self).model() == (SourceModel {
                requested: Some(
                    if old(self).model().trimmed {
                        expected_frame_count as int
                    } else {
                        expected_frame_count as int + old(self).model().delay
                    },
                ),
                ..old(self).model()
            }),
    {
        let e: usize = if self.has_trimmed_delay {
            expected_frame_count as usize
        } else {
            expected_frame_count as usize + self.resampler_delay_count
        };
        self.requested_frame_count = Some(e);
        proof {
            assert(self.model() =~= SourceModel {
                requested: Some(e as int),
                ..old(self).model()
            });
        }
    }

    /// Completes the active request from the post-resample buffer: takes
    /// the first `k` frames, and, if the startup delay was not yet trimmed,
    /// discards exactly `delay` frames from their front (failing when not
    /// even the delay itself was produced).
    fn deliver(&mut self, k: usize, cont: bool) -> (r: Result<
        Option<SourceStream>,
        SourceException,
    >)
        requires
            old(self).wf(),
            k <= old(self).model().buffered.len(),
        ensures
            final(self).wf(),
            delivery_rel(old(self).model(), final(self).model(), r, k as int, cont),
    {
        let chunk = take_prefix(&mut self.source_buffer, k);
        self.requested_frame_count = None;
        if self.has_trimmed_delay {
            proof {
                assert(self.model() =~= SourceModel {
                    buffered: old(self).model().buffered.skip(k as int),
                    trimmed: true,
                    requested: None,
                    ..old(self).model()
                });
            }
            if cont {
                Ok(Some(SourceStream::Continue(chunk)))
            } else {
                Ok(Some(SourceStream::Break(chunk)))
            }
        } else {
            self.has_trimmed_delay = true;
            proof {
                assert(self.model() =~= SourceModel {
                    buffered: old(self).model().buffered.skip(k as int),
                    trimmed: true,
                    requested: None,
                    ..old(self).model()
                });
            }
            if chunk.len() > self.resampler_delay_count {
                let mut head = chunk;
                let rest = head.split_off(self.resampler_delay_count);
                proof {
                    assert(rest@ =~= old(self).model().buffered.subrange(
                        old(self).model().delay,
                        k as int,
                    ));
                }
                if cont {
                    Ok(Some(SourceStream::Continue(rest)))
                } else {
                    Ok(Some(SourceStream::Break(rest)))
                }
            } else {
                Err(SourceException::IncorrectFile)
            }
        }
    }

    /// Advances the streaming algorithm: either the request completes, or
    /// the engine names the one piece of outside work it needs next.
    pub fn next_step(&mut self) -> (step: SourceStep)
        requires
            old(self).wf(),
            old(self).model().requested is Some,
            old(self).model().input_frames + old(self).model().chunk + old(
                self,
            ).model().pending.len() <= u64::MAX as int,
        ensures
            final(self).wf(),
            next_step_rel(old(self).model(), final(self).model(), step),
    {
        let k: usize = match self.requested_frame_count {
            Some(k) => k,
            None => 0,
        };
        if self.source_buffer.len() >= k {
            let r = self.deliver(k, true);
            SourceStep::Stream(r)
        } else if self.packet_buffer.len() >= self.resampler_chunk_size {
            let input = take_prefix(&mut self.packet_buffer, self.resampler_chunk_size);
            self.resampler_input_count = self.resampler_input_count + (
            self.resampler_chunk_size as u64);
            proof {
                assert(self.model() =~= SourceModel {
                    pending: old(self).model().pending.skip(old(self).model().chunk),
                    input_frames: old(self).model().input_frames + old(self).model().chunk,
                    ..old(self).model()
                });
            }
            SourceStep::Resample(input)
        } else if !self.end_of_stream {
            SourceStep::NeedPacket
        } else if self.packet_buffer.len() > 0 {
            let len = self.packet_buffer.len();
            let input = take_prefix(&mut self.packet_buffer, len);
            self.resampler_chunk_size = len;
            self.resampler_input_count = self.resampler_input_count + (len as u64);
            proof {
                assert(input@ =~= old(self).model().pending);
                assert(self.model() =~= SourceModel {
                    pending: Seq::empty(),
                    chunk: old(self).model().pending.len() as int,
                    input_frames: old(self).model().input_frames + old(
                        self,
                    ).model().pending.len(),
                    ..old(self).model()
                });
            }
            SourceStep::ResampleTail(input)
        } else {
            let o = self.resampler_output_count as u128;
            let n = self.sample_rate as u128;
            let i = self.resampler_input_count as u128;
            let t = self.output_sample_rate as u128;
            let d = self.resampler_delay_count as u128;
            proof {
                lemma_rate_products_fit(
                    self.resampler_output_count as int,
                    self.resampler_input_count as int,
                    self.resampler_delay_count as int,
                    self.sample_rate as int,
                    self.output_sample_rate as int,
                );
            }
            if o * n < i * t + d * n {
                proof {
                    assert(flush_shortfall(self.model())) by {
                        lemma_shortfall_rearranged(
                            self.model().output_frames,
                            self.model().delay,
                            self.model().native_rate,
                            self.model().input_frames,
                            self.model().target_rate,
                        );
                    }
                }
                SourceStep::Flush
            } else if self.source_buffer.len() > 0 {
                proof {
                    assert(!flush_shortfall(self.model())) by {
                        lemma_shortfall_rearranged(
                            self.model().output_frames,
                            self.model().delay,
                            self.model().native_rate,
                            self.model().input_frames,
                            self.model().target_rate,
                        );
                    }
                }
                let blen = self.source_buffer.len();
                let r = self.deliver(blen, false);
                SourceStep::Stream(r)
            } else {
                proof {
                    assert(!flush_shortfall(self.model())) by {
                        lemma_shortfall_rearranged(
                            self.model().output_frames,
                            self.model().delay,
                            self.model().native_rate,
                            self.model().input_frames,
                            self.model().target_rate,
                        );
                    }
                }
                self.requested_frame_count = None;
                proof {
                    assert(self.model() =~= SourceModel {
                        requested: None,
                        ..old(self).model()
                    });
                }
                SourceStep::Stream(Ok(None))
            }
        }
    }

    /// Appends one decoded packet's frames to the pending native buffer.
    pub fn on_packet(&mut self, frames: Vec<StereoFrame>)
        requires
            old(self).wf(),
        ensures
            final(self).wf(),
            final(self).model() == (SourceModel {
                pending: old(self).model().pending + frames@,
                ..old(self).model()
            }),
    {
        let ghost f0 = frames@;
        let mut frames = frames;
        self.packet_buffer.append(&mut frames);
        proof {
            assert(self.model() =~= SourceModel {
                pending: old(self).model().pending + f0,
                ..old(self).model()
            });
        }
    }

    /// Records that the container has no further packets.
    pub fn on_packet_end(&mut self)
        requires
            old(self).wf(),
        ensures
            final(self).wf(),
            final(self).model() == (SourceModel { eos: true, ..old(self).model() }),
    {
        self.end_of_stream = true;
        proof {
            assert(self.model() =~= SourceModel { eos: true, ..old(self).model() });
        }
    }

    /// Appends the resampler's output for a `Resample` or `ResampleTail`
    /// step to the post-resample buffer.
    pub fn on_resampled(&mut self, frames: Vec<StereoFrame>)
        requires
            old(self).wf(),
            old(self).model().output_frames + frames@.len() <= u64::MAX as int,
        ensures
            final(self).wf(),
            final(self).model() == (SourceModel {
                buffered: old(self).model().buffered + frames@,
                output_frames: old(self).model().output_frames + frames@.len(),
                ..old(self).model()
            }),
    {
        let ghost f0 = frames@;
        let count = frames.len();
        let mut frames = frames;
        self.source_buffer.append(&mut frames);
        self.resampler_output_count = self.resampler_output_count + (count as u64);
        proof {
            assert(self.model() =~= SourceModel {
                buffered: old(self).model().buffered + f0,
                output_frames: old(self).model().output_frames + f0.len(),
                ..old(self).model()
            });
        }
    }

    /// Appends one partial-flush output. When the cumulative accounting
    /// (input frames times target rate against produced frames times native
    /// rate) is satisfied by it, the post-resample buffer is trimmed to the
    /// exact number of valid trailing frames, discarding the resampler's
    /// end-of-stream overshoot.
    pub fn on_flushed(&mut self, frames: Vec<StereoFrame>)
        requires
            old(self).wf(),
            old(self).model().eos,
            old(self).model().pending.len() == 0,
            flush_shortfall(old(self).model()),
            old(self).model().output_frames + frames@.len() <= u64::MAX as int,
        ensures
            final(self).wf(),
            ({
                let m = old(self).model();
                let m2 = SourceModel {
                    buffered: m.buffered + frames@,
                    output_frames: m.output_frames + frames@.len(),
                    ..m
                };
                if flush_shortfall(m2) {
                    final(self).model() == m2
                } else {
                    final(self).model() == (SourceModel {
                        buffered: m2.buffered.subrange(0, flush_keep_len(m2)),
                        ..m2
                    })
                }
            }),
    {
        let ghost m = old(self).model();
        let ghost f0 = frames@;
        let flen = frames.len();
        let mut frames = frames;
        self.source_buffer.append(&mut frames);
        self.resampler_output_count = self.resampler_output_count + (flen as u64);
        let ghost m2 = SourceModel {
            buffered: m.buffered + f0,
            output_frames: m.output_frames + flen as int,
            ..m
        };
        proof {
            assert(self.model() =~= m2);
        }
        let o = self.resampler_output_count as u128;
        let n = self.sample_rate as u128;
        let i = self.resampler_input_count as u128;
        let t = self.output_sample_rate as u128;
        let d = self.resampler_delay_count as u128;
        proof {
            lemma_rate_products_fit(
                self.resampler_output_count as int,
                self.resampler_input_count as int,
                self.resampler_delay_count as int,
                self.sample_rate as int,
                self.output_sample_rate as int,
            );
            lemma_shortfall_rearranged(m2.output_frames, m2.delay, m2.native_rate, m2.input_frames, m2.target_rate);
        }
        if o * n < i * t + d * n {
            proof {
                assert(flush_shortfall(m2));
            }
        } else {
            proof {
                assert(!flush_shortfall(m2));
                lemma_shortfall_rearranged(m.output_frames, m.delay, m.native_rate, m.input_frames, m.target_rate);
                lemma_scaled_lt_div(m.output_frames - m.delay, m.input_frames * m.target_rate, m.native_rate);
                lemma_scaled_ge_div(m2.output_frames - m2.delay, m2.input_frames * m2.target_rate, m2.native_rate);
                assert(m.buffered.len() <= flush_keep_len(m2) <= m2.buffered.len());
            }
            let q: u128 = i * t / n;
            let buffered_len = self.source_buffer.len();
            let keep_wide: u128 = (buffered_len as u128) + q + d - o;
            proof {
                assert(keep_wide as int == flush_keep_len(m2));
            }
            let keep = keep_wide as usize;
            self.source_buffer.truncate(keep);
            proof {
                assert(self.model() =~= SourceModel {
                    buffered: m2.buffered.subrange(0, flush_keep_len(m2)),
                    ..m2
                });
            }
        }
    }

    /// Applies a container seek that landed on timestamp `actual_ts`:
    /// resets the decode buffers, the resampler accounting and the
    /// delay-trim flag, and returns the achieved position as whole seconds
    /// (as the container stores them) plus a millisecond remainder.
    pub fn apply_seek(&mut self, actual_ts: u64) -> (pos: (u32, u32))
        requires
            old(self).wf(),
        ensures
            final(self).wf(),
            final(self).model() == (SourceModel {
                trimmed: false,
                input_frames: 0,
                output_frames: 0,
                pending: Seq::empty(),
                buffered: Seq::empty(),
                eos: false,
                requested: None,
                ..old(self).model()
            }),
            pos.0 as int == timestamp_seconds(
                actual_ts as int,
                old(self).model().tb_numer,
                old(self).model().tb_denom,
            ) % 0x1_0000_0000,
            pos.1 as int == timestamp_millis(
                actual_ts as int,
                old(self).model().tb_numer,
                old(self).model().tb_denom,
            ),
            pos.1 < 1000,
    {
        self.has_trimmed_delay = false;
        self.resampler_input_count = 0;
        self.resampler_output_count = 0;
        self.packet_buffer = Vec::new();
        self.source_buffer = Vec::new();
        self.end_of_stream = false;
        self.requested_frame_count = None;
        proof {
            assert(self.model() =~= SourceModel {
                trimmed: false,
                input_frames: 0,
                output_frames: 0,
                pending: Seq::empty(),
                buffered: Seq::empty(),
                eos: false,
                requested: None,
                ..old(self).model()
            });
            assert((actual_ts as int) * (self.tb_numer as int) <= (u64::MAX as int) * (
            u32::MAX as int)) by (nonlinear_arith)
                requires
                    0 <= actual_ts as int <= u64::MAX as int,
                    0 <= self.tb_numer as int <= u32::MAX as int,
            ;
        }
        let total: u128 = (actual_ts as u128) * (self.tb_numer as u128);
        let denom: u128 = self.tb_denom as u128;
        let secs = ((total / denom) % 0x1_0000_0000) as u32;
        let rem: u128 = total % denom;
        proof {
            lemma_mod_division_less_than_divisor(total as int, denom as int);
            assert((rem as int) * 1000 < (denom as int) * 1000) by (nonlinear_arith)
                requires
                    (rem as int) < (denom as int),
            ;
            lemma_div_strictly_below((rem as int) * 1000, denom as int, 1000);
        }
        let milli = (rem * 1000 / denom) as u32;
        (secs, milli)
    }

    /// Records the device's new output rate and the resampler's delay as
    /// reported after the ratio change.
    pub fn set_output_sample_rate(&mut self, rate: u32, new_delay: usize)
        requires
            old(self).wf(),
            44100 <= rate <= 192000,
        ensures
            final(self).wf(),
            final(self).model() == (SourceModel {
                target_rate: rate as int,
                delay: new_delay as int,
                ..old(self).model()
            }),
    {
        self.output_sample_rate = rate;
        self.resampler_delay_count = new_delay;
        proof {
            assert(self.model() =~= SourceModel {
                target_rate: rate as int,
                delay: new_delay as int,
                ..old(self).model()
            });
        }
    }
}

} // verus!

//! The device scheduler: owns one output-device session's negotiated
//! format, buffer accounting, start/stop state and timing clock.
//!
//! The hardware calls themselves (endpoint activation, buffer writes, the
//! clock query, the buffer-ready signal) are outside work performed by the
//! caller, which reports their plain results here; this module owns every
//! decision: which mix formats are accepted, how much buffer space a render
//! tick may fill, when the stream starts, when a terminal chunk forces a
//! drain, and how failures demote the session.

use vstd::prelude::*;
use crate::source::{SourceStream, StereoFrame};

verus! {

#[derive(Debug, PartialEq, Eq)]
pub enum DeviceException {
    FatalException,
    NoAvailableDefaultAudioEndpoint,
    UnavailableCustomAudioEndpoint,
    UnsupportedDeviceFormat,
    SilentException,
}

/// The wire format samples are converted to before they reach the
/// hardware buffer.
#[derive(Debug, PartialEq, Eq)]
pub enum SampleFormat {
    S8,
    S16,
    S24,
    S32,
    Float32,
}

/// The subtype of an extensible mix-format descriptor.
#[derive(Clone, Copy, Debug, PartialEq, Eq)]
pub enum SubFormat {
    Pcm,
    IeeeFloat,
    Other,
}

/// The plain fields of the mix-format descriptor the device reports.
#[derive(Clone, Copy, Debug)]
pub struct MixFormatDescriptor {
    pub format_tag: u32,
    pub bits_per_sample: u16,
    pub channel_count: u16,
    pub samples_per_sec: u32,
    /// Meaningful only when `format_tag` is the extensible tag.
    pub sub_format: SubFormat,
}

pub const FORMAT_TAG_PCM: u32 = 1;

pub const FORMAT_TAG_IEEE_FLOAT: u32 = 3;

pub const FORMAT_TAG_EXTENSIBLE: u32 = 0xFFFE;

/// The wire format a descriptor maps to, when the engine supports it.
pub open spec fn format_mapping(d: MixFormatDescriptor) -> Option<SampleFormat> {
    if d.format_tag == FORMAT_TAG_PCM {
        if d.bits_per_sample == 8 {
            Some(SampleFormat::S8)
        } else if d.bits_per_sample == 16 {
            Some(SampleFormat::S16)
        } else {
            None
        }
    } else if d.format_tag == FORMAT_TAG_IEEE_FLOAT {
        if d.bits_per_sample == 32 {
            Some(SampleFormat::Float32)
        } else {
            None
        }
    } else if d.format_tag == FORMAT_TAG_EXTENSIBLE {
        match d.sub_format {
            SubFormat::Pcm => if d.bits_per_sample == 16 {
                Some(SampleFormat::S16)
            } else if d.bits_per_sample == 24 {
                Some(SampleFormat::S24)
            } else if d.bits_per_sample == 32 {
                Some(SampleFormat::S32)
            } else {
                None
            },
            SubFormat::IeeeFloat => if d.bits_per_sample == 32 {
                Some(SampleFormat::Float32)
            } else {
                None
            },
            SubFormat::Other => None,
        }
    } else {
        None
    }
}

/// A descriptor the engine accepts: two channels, 44.1-192 kHz, and a
/// supported sample layout.
pub open spec fn negotiable(d: MixFormatDescriptor) -> bool {
    &&& d.channel_count == 2
    &&& 44100 <= d.samples_per_sec <= 192000
    &&& format_mapping(d) is Some
}

/// Maps the device's mix-format descriptor to the negotiated wire format,
/// rejecting everything the engine does not support.
pub fn negotiate_format(d: &MixFormatDescriptor) -> (r: Result<
    (SampleFormat, u32),
    DeviceException,
>)
    ensures
        negotiable(*d) ==> r == Ok::<(SampleFormat, u32), DeviceException>(
            (format_mapping(*d)->Some_0, d.samples_per_sec),
        ),
        !negotiable(*d) ==> r == Err::<(SampleFormat, u32), DeviceException>(
            DeviceException::UnsupportedDeviceFormat,
        ),
{
    if !(d.channel_count == 2 && 44100 <= d.samples_per_sec && d.samples_per_sec <= 192000) {
        return Err(DeviceException::UnsupportedDeviceFormat);
    }
    if d.format_tag == FORMAT_TAG_PCM {
        if d.bits_per_sample == 8 {
            Ok((SampleFormat::S8, d.samples_per_sec))
        } else if d.bits_per_sample == 16 {
            Ok((SampleFormat::S16, d.samples_per_sec))
        } else {
            Err(DeviceException::UnsupportedDeviceFormat)
        }
    } else if d.format_tag == FORMAT_TAG_IEEE_FLOAT {
        if d.bits_per_sample == 32 {
            Ok((SampleFormat::Float32, d.samples_per_sec))
        } else {
            Err(DeviceException::UnsupportedDeviceFormat)
        }
    } else if d.format_tag == FORMAT_TAG_EXTENSIBLE {
        match d.sub_format {
            SubFormat::Pcm => {
                if d.bits_per_sample == 16 {
                    Ok((SampleFormat::S16, d.samples_per_sec))
                } else if d.bits_per_sample == 24 {
                    Ok((SampleFormat::S24, d.samples_per_sec))
                } else if d.bits_per_sample == 32 {
                    Ok((SampleFormat::S32, d.samples_per_sec))
                } else {
                    Err(DeviceException::UnsupportedDeviceFormat)
                }
            },
            SubFormat::IeeeFloat => {
                if d.bits_per_sample == 32 {
                    Ok((SampleFormat::Float32, d.samples_per_sec))
                } else {
                    Err(DeviceException::UnsupportedDeviceFormat)
                }
            },
            SubFormat::Other => Err(DeviceException::UnsupportedDeviceFormat),
        }
    } else {
        Err(DeviceException::UnsupportedDeviceFormat)
    }
}

/// The mathematical state of one device session.
#[verifier::ext_equal]
pub struct DeviceModel {
    pub format: SampleFormat,
    pub sample_rate: int,
    pub buffer_frames: int,
    pub started: bool,
    pub finished: bool,
}

pub struct DeviceScheduler {
    sample_format: SampleFormat,
    sample_rate: u32,
    buffer_frame_count: u32,
    has_started: bool,
    has_finished: bool,
}

/// What one render tick must do with the frames handed to it.
pub struct RenderPlan {
    /// The frames to convert to the wire format and write into the
    /// hardware buffer; nothing is written when no source data exists.
    pub frames: Option<Vec<StereoFrame>>,
    /// After the write, busy-wait until the hardware buffer empties, then
    /// pause: the stream is over.
    pub drain: bool,
}

/// Whether a render tick must drain the device: the caller handed either
/// no source data at all or the terminal chunk of the stream.
pub open spec fn drain_required(source: Option<SourceStream>) -> bool {
    match source {
        None => true,
        Some(SourceStream::Break(_)) => true,
        Some(SourceStream::Continue(_)) => false,
    }
}

pub open spec fn source_frames(source: Option<SourceStream>) -> Option<Seq<StereoFrame>> {
    match source {
        None => None,
        Some(SourceStream::Break(v)) => Some(v@),
        Some(SourceStream::Continue(v)) => Some(v@),
    }
}

impl DeviceScheduler {
    pub closed spec fn model(self) -> DeviceModel {
        DeviceModel {
            format: self.sample_format,
            sample_rate: self.sample_rate as int,
            buffer_frames: self.buffer_frame_count as int,
            started: self.has_started,
            finished: self.has_finished,
        }
    }

    pub open spec fn wf(self) -> bool {
        44100 <= self.model().sample_rate <= 192000
    }

    /// Builds the session for an activated endpoint from its mix-format
    /// descriptor and the hardware buffer size the device granted.
    pub fn activate(d: &MixFormatDescriptor, buffer_frame_count: u32) -> (r: Result<
        DeviceScheduler,
        DeviceException,
    >)
        ensures
            negotiable(*d) ==> match r {
                Ok(s) => {
                    &&& s.wf()
                    &&& s.model() == (DeviceModel {
                        format: format_mapping(*d)->Some_0,
                        sample_rate: d.samples_per_sec as int,
                        buffer_frames: buffer_frame_count as int,
                        started: false,
                        finished: false,
                    })
                },
                Err(_) => false,
            },
            !negotiable(*d) ==> r == Err::<DeviceScheduler, DeviceException>(
                DeviceException::UnsupportedDeviceFormat,
            ),
    {
        match negotiate_format(d) {
            Ok((format, rate)) => Ok(
                DeviceScheduler {
                    sample_format: format,
                    sample_rate: rate,
                    buffer_frame_count,
                    has_started: false,
                    has_finished: false,
                },
            ),
            Err(e) => Err(e),
        }
    }

    pub fn get_sample_rate(&self) -> (r: u32)
        ensures
            r as int == self.model().sample_rate,
    {
        self.sample_rate
    }

    pub fn get_buffer_frame_count(&self) -> (n: u32)
        ensures
            n as int == self.model().buffer_frames,
    {
        self.buffer_frame_count
    }

    pub fn get_has_started(&self) -> (b: bool)
        ensures
            b == self.model().started,
    {
        self.has_started
    }

    /// Free space of the hardware buffer for this tick. `signal_arrived`
    /// reports the bounded wait on the device's buffer-ready signal (only
    /// consulted once the stream has started; a timeout is fatal for this
    /// session), `padding` the device's count of queued, unread frames.
    pub fn get_expected_frame_count(&mut self, signal_arrived: bool, padding: Result<u32, ()>) -> (
    r: Result<u32, DeviceException>)
        requires
            old(self).wf(),
            (padding matches Ok(p) ==> p <= old(self).model().buffer_frames),
        ensures
            final(self).wf(),
            old(self).model().started && !signal_arrived ==> r == Err::<u32, DeviceException>(
                DeviceException::FatalException,
            ) && final(self).model() == old(self).model(),
            !(old(self).model().started && !signal_arrived) ==> match padding {
                Ok(p) => r == Ok::<u32, DeviceException>(
                    (old(self).model().buffer_frames - p) as u32,
                ) && final(self).model() == old(self).model(),
                Err(_) => r == Err::<u32, DeviceException>(DeviceException::SilentException)
                    && final(self).model() == (DeviceModel {
                    started: false,
                    ..old(self).model()
                }),
            },
    {
        if self.has_started && !signal_arrived {
            return Err(DeviceException::FatalException);
        }
        match padding {
            Ok(p) => Ok(self.buffer_frame_count - p),
            Err(_) => {
                self.pause();
                Err(DeviceException::SilentException)
            },
        }
    }

    /// Splits a render call into its write-and-drain plan. A session whose
    /// stream already finished does nothing.
    pub fn play_begin(&self, source: Option<SourceStream>) -> (plan: RenderPlan)
        ensures
            self.model().finished ==> plan.frames is None && !plan.drain,
            !self.model().finished ==> {
                &&& plan.drain == drain_required(source)
                &&& match source_frames(source) {
                    None => plan.frames is None,
                    Some(f) => plan.frames matches Some(v) && v@ == f,
                }
            },
    {
        if self.has_finished {
            return RenderPlan { frames: None, drain: false };
        }
        match source {
            None => RenderPlan { frames: None, drain: true },
            Some(SourceStream::Break(v)) => RenderPlan { frames: Some(v), drain: true },
            Some(SourceStream::Continue(v)) => RenderPlan { frames: Some(v), drain: false },
        }
    }

    /// Applies the outside results of one render call: `wrote` whether the
    /// plan had frames to write, `write_ok` the buffer write, `start_ok`
    /// the stream start (consulted only on the first successful write),
    /// `drain_ok` the busy-wait poll until the buffer emptied. Returns
    /// whether the session finished on this call.
    pub fn play_commit(&mut self, plan_drain: bool, wrote: bool, write_ok: bool, start_ok: bool, drain_ok: bool) -> (r: Result<bool, DeviceException>)
        requires
            old(self).wf(),
            old(self).model().finished ==> !plan_drain && !wrote,
        ensures
            final(self).wf(),
            ({
                let m = old(self).model();
                let mp = final(self).model();
                if m.finished {
                    r == Ok::<bool, DeviceException>(false) && mp == m
                } else if wrote && !write_ok {
                    r == Err::<bool, DeviceException>(DeviceException::SilentException) && mp == (
                    DeviceModel { started: false, ..m })
                } else if wrote && !m.started && !start_ok {
                    r == Err::<bool, DeviceException>(DeviceException::SilentException) && mp == m
                } else {
                    let started = m.started || wrote;
                    if plan_drain {
                        if drain_ok {
                            r == Ok::<bool, DeviceException>(true) && mp == (DeviceModel {
                                started: false,
                                finished: true,
                                ..m
                            })
                        } else {
                            r == Err::<bool, DeviceException>(DeviceException::SilentException)
                                && mp == (DeviceModel { started: false, ..m })
                        }
                    } else {
                        r == Ok::<bool, DeviceException>(false) && mp == (DeviceModel {
                            started,
                            ..m
                        })
                    }
                }
            }),
            r == Ok::<bool, DeviceException>(true) ==> plan_drain && drain_ok
                && !final(self).model().started && final(self).model().finished,
    {
        if self.has_finished {
            return Ok(false);
        }
        if wrote && !write_ok {
            self.pause();
            return Err(DeviceException::SilentException);
        }
        if wrote && !self.has_started {
            if !start_ok {
                return Err(DeviceException::SilentException);
            }
            self.has_started = true;
        }
        if plan_drain {
            if !drain_ok {
                self.pause();
                return Err(DeviceException::SilentException);
            }
            self.pause();
            self.has_finished = true;
            proof {
                assert(self.model() =~= DeviceModel {
                    started: false,
                    finished: true,
                    ..old(self).model()
                });
            }
            Ok(true)
        } else {
            proof {
                assert(self.model() =~= DeviceModel {
                    started: old(self).model().started || wrote,
                    ..old(self).model()
                });
            }
            Ok(false)
        }
    }

    /// Idempotent: stops the stream and resets the ready signal.
    pub fn pause(&mut self)
        requires
            old(self).wf(),
        ensures
            final(self).wf(),
            final(self).model() == (DeviceModel { started: false, ..old(self).model() }),
    {
        if self.has_started {
            self.has_started = false;
        }
        proof {
            assert(self.model() =~= DeviceModel { started: false, ..old(self).model() });
        }
    }

    /// Pauses and clears the hardware buffer, making the session renderable
    /// again after a seek or track change.
    pub fn reset_buffer(&mut self)
        requires
            old(self).wf(),
        ensures
            final(self).wf(),
            final(self).model() == (DeviceModel {
                started: false,
                finished: false,
                ..old(self).model()
            }),
    {
        self.pause();
        self.has_finished = false;
        proof {
            assert(self.model() =~= DeviceModel {
                started: false,
                finished: false,
                ..old(self).model()
            });
        }
    }

    /// Re-negotiates the format in place against the same physical device
    /// after the system reported a format change. The old session parts
    /// are disposed (pausing the stream) either way; on success the new
    /// format, rate and buffer size replace them.
    pub fn correct_device_format(&mut self, d: &MixFormatDescriptor, buffer_frame_count: u32) -> (
    r: Result<(), DeviceException>)
        requires
            old(self).wf(),
        ensures
            final(self).wf(),
            negotiable(*d) ==> r == Ok::<(), DeviceException>(()) && final(self).model() == (
            DeviceModel {
                format: format_mapping(*d)->Some_0,
                sample_rate: d.samples_per_sec as int,
                buffer_frames: buffer_frame_count as int,
                started: false,
                ..old(self).model()
            }),
            !negotiable(*d) ==> r == Err::<(), DeviceException>(
                DeviceException::UnsupportedDeviceFormat,
            ) && final(self).model() == (DeviceModel { started: false, ..old(self).model() }),
    {
        self.pause();
        match negotiate_format(d) {
            Ok((format, rate)) => {
                self.sample_format = format;
                self.sample_rate = rate;
                self.buffer_frame_count = buffer_frame_count;
                proof {
                    assert(self.model() =~= DeviceModel {
                        format: format_mapping(*d)->Some_0,
                        sample_rate: d.samples_per_sec as int,
                        buffer_frames: buffer_frame_count as int,
                        started: false,
                        ..old(self).model()
                    });
                }
                Ok(())
            },
            Err(e) => Err(e),
        }
    }

    /// Elapsed stream time from the device clock's position and frequency,
    /// in milliseconds. A clock query failure is a transient device fault.
    pub fn get_timeline_offset(&self, clock: Result<(u64, u64), ()>) -> (r: Result<
        u64,
        DeviceException,
    >)
        requires
            (clock matches Ok(c) ==> c.1 >= 1 && c.0 as int * 1000 / c.1 as int <= u64::MAX as int),
        ensures
            match clock {
                Ok(c) => r == Ok::<u64, DeviceException>(
                    (c.0 as int * 1000 / c.1 as int) as u64,
                ),
                Err(_) => r == Err::<u64, DeviceException>(DeviceException::SilentException),
            },
    {
        match clock {
            Ok((position, frequency)) => {
                proof {
                    assert((position as int) * 1000 <= (u64::MAX as int) * 1000)
                        by (nonlinear_arith)
                        requires
                            0 <= position as int <= u64::MAX as int,
                    ;
                }
                let wide: u128 = (position as u128) * 1000 / (frequency as u128);
                Ok(wide as u64)
            },
            Err(_) => Err(DeviceException::SilentException),
        }
    }
}

} // verus!

use rhythm_player::device::{
    DeviceException, DeviceScheduler, MixFormatDescriptor, SampleFormat, SubFormat,
    FORMAT_TAG_EXTENSIBLE, FORMAT_TAG_IEEE_FLOAT, FORMAT_TAG_PCM, negotiate_format,
};
use rhythm_player::source::SourceStream;

fn descriptor(tag: u32, bits: u16, channels: u16, rate: u32, sub: SubFormat) -> MixFormatDescriptor {
    MixFormatDescriptor {
        format_tag: tag,
        bits_per_sample: bits,
        channel_count: channels,
        samples_per_sec: rate,
        sub_format: sub,
    }
}

#[test]
fn pcm_formats_negotiate_to_their_bit_depth() {
    let d = descriptor(FORMAT_TAG_PCM, 8, 2, 44100, SubFormat::Other);
    assert_eq!(negotiate_format(&d).unwrap(), (SampleFormat::S8, 44100));
    let d = descriptor(FORMAT_TAG_PCM, 16, 2, 48000, SubFormat::Other);
    assert_eq!(negotiate_format(&d).unwrap(), (SampleFormat::S16, 48000));
}

#[test]
fn float_format_negotiates_at_32_bits_only() {
    let d = descriptor(FORMAT_TAG_IEEE_FLOAT, 32, 2, 96000, SubFormat::Other);
    assert_eq!(negotiate_format(&d).unwrap(), (SampleFormat::Float32, 96000));
    let d = descriptor(FORMAT_TAG_IEEE_FLOAT, 64, 2, 96000, SubFormat::Other);
    assert_eq!(
        negotiate_format(&d).unwrap_err(),
        DeviceException::UnsupportedDeviceFormat
    );
}

#[test]
fn extensible_formats_follow_their_subtype() {
    let d = descriptor(FORMAT_TAG_EXTENSIBLE, 24, 2, 192000, SubFormat::Pcm);
    assert_eq!(negotiate_format(&d).unwrap(), (SampleFormat::S24, 192000));
    let d = descriptor(FORMAT_TAG_EXTENSIBLE, 32, 2, 44100, SubFormat::Pcm);
    assert_eq!(negotiate_format(&d).unwrap(), (SampleFormat::S32, 44100));
    let d = descriptor(FORMAT_TAG_EXTENSIBLE, 32, 2, 44100, SubFormat::IeeeFloat);
    assert_eq!(negotiate_format(&d).unwrap(), (SampleFormat::Float32, 44100));
    let d = descriptor(FORMAT_TAG_EXTENSIBLE, 16, 2, 44100, SubFormat::Other);
    assert_eq!(
        negotiate_format(&d).unwrap_err(),
        DeviceException::UnsupportedDeviceFormat
    );
}

#[test]
fn unsupported_depth_channel_count_and_rate_are_rejected() {
    let d = descriptor(FORMAT_TAG_PCM, 24, 2, 44100, SubFormat::Other);
    assert_eq!(
        negotiate_format(&d).unwrap_err(),
        DeviceException::UnsupportedDeviceFormat
    );
    let d = descriptor(FORMAT_TAG_PCM, 16, 1, 44100, SubFormat::Other);
    assert_eq!(
        negotiate_format(&d).unwrap_err(),
        DeviceException::UnsupportedDeviceFormat
    );
    let d = descriptor(FORMAT_TAG_PCM, 16, 2, 22050, SubFormat::Other);
    assert_eq!(
        negotiate_format(&d).unwrap_err(),
        DeviceException::UnsupportedDeviceFormat
    );
    let d = descriptor(FORMAT_TAG_PCM, 16, 2, 384000, SubFormat::Other);
    assert_eq!(
        negotiate_format(&d).unwrap_err(),
        DeviceException::UnsupportedDeviceFormat
    );
}

#[test]
fn expected_frame_count_is_the_free_buffer_space() {
    let d = descriptor(FORMAT_TAG_PCM, 16, 2, 48000, SubFormat::Other);
    let mut s = DeviceScheduler::activate(&d, 4800).unwrap();
    assert_eq!(s.get_sample_rate(), 48000);
    assert!(!s.get_has_started());
    assert_eq!(s.get_expected_frame_count(true, Ok(1000)).unwrap(), 3800);
    assert_eq!(s.get_expected_frame_count(true, Ok(0)).unwrap(), 4800);
}

#[test]
fn buffer_signal_timeout_is_fatal_once_started() {
    let d = descriptor(FORMAT_TAG_PCM, 16, 2, 48000, SubFormat::Other);
    let mut s = DeviceScheduler::activate(&d, 4800).unwrap();
    // not yet started: the signal is not consulted
    assert!(s.get_expected_frame_count(false, Ok(0)).is_ok());
    let plan = s.play_begin(Some(SourceStream::Continue(vec![(0, 0)])));
    assert!(!plan.drain);
    assert_eq!(s.play_commit(plan.drain, true, true, true, true).unwrap(), false);
    assert!(s.get_has_started());
    assert_eq!(
        s.get_expected_frame_count(false, Ok(0)).unwrap_err(),
        DeviceException::FatalException
    );
}

#[test]
fn padding_query_failure_pauses_and_is_silent() {
    let d = descriptor(FORMAT_TAG_PCM, 16, 2, 48000, SubFormat::Other);
    let mut s = DeviceScheduler::activate(&d, 4800).unwrap();
    let plan = s.play_begin(Some(SourceStream::Continue(vec![(0, 0)])));
    assert_eq!(s.play_commit(plan.drain, true, true, true, true).unwrap(), false);
    assert_eq!(
        s.get_expected_frame_count(true, Err(())).unwrap_err(),
        DeviceException::SilentException
    );
    assert!(!s.get_has_started());
}

#[test]
fn terminal_chunk_drains_then_finishes() {
    let d = descriptor(FORMAT_TAG_PCM, 16, 2, 48000, SubFormat::Other);
    let mut s = DeviceScheduler::activate(&d, 4800).unwrap();
    let plan = s.play_begin(Some(SourceStream::Break(vec![(1, 1), (2, 2)])));
    assert!(plan.drain);
    assert_eq!(plan.frames, Some(vec![(1, 1), (2, 2)]));
    assert_eq!(s.play_commit(plan.drain, true, true, true, true).unwrap(), true);
    assert!(!s.get_has_started());
    // a finished session renders nothing further
    let plan = s.play_begin(Some(SourceStream::Continue(vec![(3, 3)])));
    assert!(plan.frames.is_none());
    assert!(!plan.drain);
    assert_eq!(s.play_commit(plan.drain, false, true, true, true).unwrap(), false);
}

#[test]
fn empty_source_request_also_drains() {
    let d = descriptor(FORMAT_TAG_PCM, 16, 2, 48000, SubFormat::Other);
    let mut s = DeviceScheduler::activate(&d, 4800).unwrap();
    let plan = s.play_begin(None);
    assert!(plan.drain);
    assert!(plan.frames.is_none());
    assert_eq!(s.play_commit(plan.drain, false, true, true, true).unwrap(), true);
}

#[test]
fn write_failure_pauses_and_is_silent() {
    let d = descriptor(FORMAT_TAG_PCM, 16, 2, 48000, SubFormat::Other);
    let mut s = DeviceScheduler::activate(&d, 4800).unwrap();
    let plan = s.play_begin(Some(SourceStream::Continue(vec![(0, 0)])));
    assert_eq!(
        s.play_commit(plan.drain, true, false, true, true).unwrap_err(),
        DeviceException::SilentException
    );
    assert!(!s.get_has_started());
}

#[test]
fn reset_buffer_reopens_a_finished_session() {
    let d = descriptor(FORMAT_TAG_PCM, 16, 2, 48000, SubFormat::Other);
    let mut s = DeviceScheduler::activate(&d, 4800).unwrap();
    let plan = s.play_begin(None);
    assert_eq!(s.play_commit(plan.drain, false, true, true, true).unwrap(), true);
    s.reset_buffer();
    let plan = s.play_begin(Some(SourceStream::Continue(vec![(0, 0)])));
    assert!(plan.frames.is_some());
}

#[test]
fn format_correction_replaces_the_negotiated_format() {
    let d = descriptor(FORMAT_TAG_PCM, 16, 2, 48000, SubFormat::Other);
    let mut s = DeviceScheduler::activate(&d, 4800).unwrap();
    let d2 = descriptor(FORMAT_TAG_EXTENSIBLE, 24, 2, 44100, SubFormat::Pcm);
    s.correct_device_format(&d2, 4410).unwrap();
    assert_eq!(s.get_sample_rate(), 44100);
    let bad = descriptor(FORMAT_TAG_PCM, 24, 2, 44100, SubFormat::Other);
    assert_eq!(
        s.correct_device_format(&bad, 4410).unwrap_err(),
        DeviceException::UnsupportedDeviceFormat
    );
}

#[test]
fn timeline_offset_follows_the_device_clock() {
    let d = descriptor(FORMAT_TAG_PCM, 16, 2, 48000, SubFormat::Other);
    let s = DeviceScheduler::activate(&d, 4800).unwrap();
    assert_eq!(s.get_timeline_offset(Ok((48000, 96000))).unwrap(), 500);
    assert_eq!(s.get_timeline_offset(Ok((10_000_000, 10_000_000))).unwrap(), 1000);
    assert_eq!(
        s.get_timeline_offset(Err(())).unwrap_err(),
        DeviceException::SilentException
    );
}

#[test]
fn activation_rejects_an_unsupported_mix_format() {
    let d = descriptor(FORMAT_TAG_PCM, 16, 4, 48000, SubFormat::Other);
    match DeviceScheduler::activate(&d, 4800) {
        Err(e) => assert_eq!(e, DeviceException::UnsupportedDeviceFormat),
        Ok(_) => panic!("an unsupported format must be rejected"),
    }
}

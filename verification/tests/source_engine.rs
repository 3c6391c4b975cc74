use rhythm_player::source::{
    SourceException, SourceScheduler, SourceStep, SourceStream, StereoFrame, TrackDescriptor,
};

fn track(id: u32, rate: u32, frames: u64) -> TrackDescriptor {
    TrackDescriptor {
        id,
        codec_is_null: false,
        channel_count: Some(2),
        sample_rate: Some(rate),
        time_base: Some((1, rate)),
        frame_count: Some(frames),
    }
}

fn frames(start: u32, count: u32) -> Vec<StereoFrame> {
    let mut v = Vec::new();
    let mut i = 0;
    while i < count {
        v.push((start + i, start + i));
        i += 1;
    }
    v
}

#[test]
fn open_computes_duration_from_time_base() {
    let tracks = vec![track(7, 44100, 4_410_000)];
    let s = SourceScheduler::open(&tracks, 1024, 32).unwrap();
    assert_eq!(s.get_track_id(), 7);
    assert_eq!(s.get_duration(), 100);
    assert_eq!(s.get_output_sample_rate(), 44100);
    assert!(!s.determine_additional_seek_necessity());
}

#[test]
fn open_skips_null_codec_tracks() {
    let mut null_track = track(1, 44100, 44100);
    null_track.codec_is_null = true;
    let tracks = vec![null_track, track(2, 48000, 48000)];
    let s = SourceScheduler::open(&tracks, 1024, 32).unwrap();
    assert_eq!(s.get_track_id(), 2);
    assert_eq!(s.get_duration(), 1);
}

#[test]
fn open_fails_without_any_track() {
    let tracks: Vec<TrackDescriptor> = vec![];
    match SourceScheduler::open(&tracks, 1024, 32) {
            Err(e) => assert_eq!(e, SourceException::InvalidFile),
            Ok(_) => panic!("the open must fail"),
        }
}

#[test]
fn open_fails_on_mono_track() {
    let mut t = track(1, 44100, 44100);
    t.channel_count = Some(1);
    match SourceScheduler::open(&vec![t], 1024, 32) {
            Err(e) => assert_eq!(e, SourceException::InvalidFile),
            Ok(_) => panic!("the open must fail"),
        }
}

#[test]
fn open_fails_on_out_of_range_rate() {
    let mut t = track(1, 22050, 44100);
    t.time_base = Some((1, 22050));
    match SourceScheduler::open(&vec![t], 1024, 32) {
            Err(e) => assert_eq!(e, SourceException::InvalidFile),
            Ok(_) => panic!("the open must fail"),
        }
}

#[test]
fn open_fails_on_missing_time_base() {
    let mut t = track(1, 44100, 44100);
    t.time_base = None;
    match SourceScheduler::open(&vec![t], 1024, 32) {
            Err(e) => assert_eq!(e, SourceException::InvalidFile),
            Ok(_) => panic!("the open must fail"),
        }
}

#[test]
fn open_rejects_the_first_decodable_track_even_if_a_later_one_fits() {
    let mut bad = track(1, 44100, 44100);
    bad.channel_count = Some(6);
    let good = track(2, 44100, 44100);
    match SourceScheduler::open(&vec![bad, good], 1024, 32) {
            Err(e) => assert_eq!(e, SourceException::InvalidFile),
            Ok(_) => panic!("the open must fail"),
        }
}

#[test]
fn first_request_discards_exactly_the_reported_delay() {
    let tracks = vec![track(1, 44100, 4_410_000)];
    let mut s = SourceScheduler::open(&tracks, 4, 2).unwrap();

    s.begin_request(3);
    assert_eq!(s.next_step(), SourceStep::NeedPacket);
    s.on_packet(frames(0, 6));
    match s.next_step() {
        SourceStep::Resample(input) => assert_eq!(input, frames(0, 4)),
        other => panic!("expected a resample step, got {:?}", other),
    }
    s.on_resampled(frames(100, 5));
    match s.next_step() {
        SourceStep::Stream(Ok(Some(SourceStream::Continue(v)))) => {
            // frames 100 and 101 are the startup delay; they never reach the device
            assert_eq!(v, frames(102, 3));
        },
        other => panic!("expected a full delivery, got {:?}", other),
    }
    assert!(s.determine_additional_seek_necessity());

    // the second request never discards again
    s.begin_request(2);
    assert_eq!(s.next_step(), SourceStep::NeedPacket);
    s.on_packet(frames(6, 2));
    match s.next_step() {
        SourceStep::Resample(input) => assert_eq!(input, frames(4, 4)),
        other => panic!("expected a resample step, got {:?}", other),
    }
    s.on_resampled(frames(105, 2));
    match s.next_step() {
        SourceStep::Stream(Ok(Some(SourceStream::Continue(v)))) => {
            assert_eq!(v, frames(105, 2));
        },
        other => panic!("expected a full delivery, got {:?}", other),
    }
}

#[test]
fn end_of_stream_flush_trims_to_exact_rate_accounting() {
    let tracks = vec![track(1, 44100, 4_410_000)];
    let mut s = SourceScheduler::open(&tracks, 4, 2).unwrap();

    s.begin_request(10);  // effective 12 with the untrimmed delay
    assert_eq!(s.next_step(), SourceStep::NeedPacket);
    s.on_packet(frames(0, 5));
    match s.next_step() {
        SourceStep::Resample(input) => assert_eq!(input, frames(0, 4)),
        other => panic!("expected a resample step, got {:?}", other),
    }
    s.on_resampled(frames(100, 3));
    assert_eq!(s.next_step(), SourceStep::NeedPacket);
    s.on_packet_end();
    match s.next_step() {
        SourceStep::ResampleTail(input) => assert_eq!(input, frames(4, 1)),
        other => panic!("expected the tail resample, got {:?}", other),
    }
    s.on_resampled(frames(103, 1));
    // 5 input frames at equal rates owe 5 output frames past the delay of 2;
    // only 4 were produced, so the resampler must be flushed
    assert_eq!(s.next_step(), SourceStep::Flush);
    s.on_flushed(frames(104, 5));
    // 9 produced, 7 valid (5 owed plus the delay): the overshoot is trimmed
    match s.next_step() {
        SourceStep::Stream(Ok(Some(SourceStream::Break(v)))) => {
            assert_eq!(v, frames(102, 5));
        },
        other => panic!("expected the terminal chunk, got {:?}", other),
    }

    // the stream is now truly exhausted
    s.begin_request(10);
    assert_eq!(s.next_step(), SourceStep::Stream(Ok(None)));
}

#[test]
fn delivery_no_longer_than_the_delay_is_an_error() {
    let tracks = vec![track(1, 44100, 4_410_000)];
    let mut s = SourceScheduler::open(&tracks, 4, 5).unwrap();

    s.begin_request(0);  // effective 5: exactly the delay, nothing playable
    assert_eq!(s.next_step(), SourceStep::NeedPacket);
    s.on_packet(frames(0, 4));
    match s.next_step() {
        SourceStep::Resample(input) => assert_eq!(input, frames(0, 4)),
        other => panic!("expected a resample step, got {:?}", other),
    }
    s.on_resampled(frames(100, 5));
    assert_eq!(
        s.next_step(),
        SourceStep::Stream(Err(SourceException::IncorrectFile))
    );
}

#[test]
fn seek_reports_the_achieved_position_and_rearms_the_trim() {
    let tracks = vec![track(1, 44100, 4_410_000)];
    let mut s = SourceScheduler::open(&tracks, 4, 2).unwrap();

    // play a little so the delay is trimmed
    s.begin_request(1);
    assert_eq!(s.next_step(), SourceStep::NeedPacket);
    s.on_packet(frames(0, 4));
    match s.next_step() {
        SourceStep::Resample(_) => {},
        other => panic!("expected a resample step, got {:?}", other),
    }
    s.on_resampled(frames(100, 3));
    match s.next_step() {
        SourceStep::Stream(Ok(Some(SourceStream::Continue(_)))) => {},
        other => panic!("expected a full delivery, got {:?}", other),
    }
    assert!(s.determine_additional_seek_necessity());

    // 42.7 seconds at 44100 timestamps per second
    let (second, milli) = s.apply_seek(1_883_070);
    assert_eq!(second, 42);
    assert_eq!(milli, 700);
    assert!(!s.determine_additional_seek_necessity());
}

#[test]
fn output_rate_change_updates_rate_and_delay() {
    let tracks = vec![track(1, 44100, 4_410_000)];
    let mut s = SourceScheduler::open(&tracks, 1024, 32).unwrap();
    s.set_output_sample_rate(48000, 35);
    assert_eq!(s.get_output_sample_rate(), 48000);
}

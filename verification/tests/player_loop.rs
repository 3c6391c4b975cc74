use rhythm_player::command::{AudioEndpoint, Command, Volume};
use rhythm_player::device::{
    DeviceException, MixFormatDescriptor, SubFormat, FORMAT_TAG_IEEE_FLOAT,
};
use rhythm_player::player::{
    CommandAux, CommandIo, DeviceSlot, Player, PlayerEvent,
};
use rhythm_player::source::{
    SourceException, SourceScheduler, SourceStep, StereoFrame, TrackDescriptor,
};

fn float_descriptor(rate: u32) -> MixFormatDescriptor {
    MixFormatDescriptor {
        format_tag: FORMAT_TAG_IEEE_FLOAT,
        bits_per_sample: 32,
        channel_count: 2,
        samples_per_sec: rate,
        sub_format: SubFormat::Other,
    }
}

fn track(rate: u32, frames: u64) -> TrackDescriptor {
    TrackDescriptor {
        id: 1,
        codec_is_null: false,
        channel_count: Some(2),
        sample_rate: Some(rate),
        time_base: Some((1, rate)),
        frame_count: Some(frames),
    }
}

fn frames(start: u32, count: u64) -> Vec<StereoFrame> {
    let mut v = Vec::new();
    let mut i: u32 = 0;
    while (i as u64) < count {
        v.push((start.wrapping_add(i), start.wrapping_add(i)));
        i += 1;
    }
    v
}

fn no_aux() -> CommandAux {
    CommandAux { restore_seek: None, seek: None, new_delay: None }
}

#[test]
fn play_without_a_track_does_nothing() {
    let mut player = Player::new();
    let mut device = DeviceSlot::Missing;
    let mut source: Option<SourceScheduler> = None;
    let (ev, closed) =
        player.apply_command(&mut device, &mut source, Command::Play, CommandIo::Nothing, no_aux());
    assert!(ev.is_empty());
    assert!(!closed);
    assert!(!player.get_is_playing());
}

#[test]
fn close_exits_the_loop() {
    let mut player = Player::new();
    let mut device = DeviceSlot::Missing;
    let mut source: Option<SourceScheduler> = None;
    let (ev, closed) = player.apply_command(
        &mut device,
        &mut source,
        Command::Close,
        CommandIo::Nothing,
        no_aux(),
    );
    assert!(ev.is_empty());
    assert!(closed);
}

#[test]
fn selecting_a_track_announces_it_and_rewinds() {
    let mut player = Player::new();
    let mut device = DeviceSlot::Missing;
    let mut source: Option<SourceScheduler> = None;
    let engine = SourceScheduler::open(&vec![track(44100, 441_000)], 1024, 32).unwrap();
    let (ev, _) = player.apply_command(
        &mut device,
        &mut source,
        Command::SelectTrack(String::from("a.flac"), String::from("song-1")),
        CommandIo::SourceOpen(Ok(engine)),
        no_aux(),
    );
    assert_eq!(
        ev,
        vec![
            PlayerEvent::Track(Some(String::from("song-1"))),
            PlayerEvent::Progress(0),
        ]
    );
    assert!(source.is_some());
}

#[test]
fn a_failing_track_open_is_announced_with_its_identifier() {
    let mut player = Player::new();
    let mut device = DeviceSlot::Missing;
    let mut source: Option<SourceScheduler> = None;
    let (ev, _) = player.apply_command(
        &mut device,
        &mut source,
        Command::SelectTrack(String::from("bad.flac"), String::from("song-2")),
        CommandIo::SourceOpen(Err(SourceException::InvalidFile)),
        no_aux(),
    );
    assert_eq!(
        ev,
        vec![
            PlayerEvent::SourceError(
                SourceException::InvalidFile,
                Some(String::from("song-2"))
            ),
            PlayerEvent::Track(Some(String::from("song-2"))),
            PlayerEvent::Progress(0),
        ]
    );
    assert!(source.is_none());
}

#[test]
fn clearing_the_track_pauses_and_rewinds() {
    let mut player = Player::new();
    let mut device = DeviceSlot::Missing;
    let mut source: Option<SourceScheduler> = None;
    let (ev, _) = player.apply_command(
        &mut device,
        &mut source,
        Command::ClearTrack,
        CommandIo::Nothing,
        no_aux(),
    );
    assert_eq!(
        ev,
        vec![
            PlayerEvent::Track(None),
            PlayerEvent::Progress(0),
            PlayerEvent::State(false),
        ]
    );
    assert!(!player.get_is_playing());
}

#[test]
fn failed_device_selection_is_announced_and_leaves_no_device() {
    let mut player = Player::new();
    let mut device = DeviceSlot::Missing;
    let mut source: Option<SourceScheduler> = None;
    let (ev, _) = player.apply_command(
        &mut device,
        &mut source,
        Command::SelectMode(AudioEndpoint::Default, Volume::new(1000)),
        CommandIo::DeviceOpen(Err(DeviceException::NoAvailableDefaultAudioEndpoint)),
        no_aux(),
    );
    assert_eq!(
        ev,
        vec![PlayerEvent::DeviceError(
            DeviceException::NoAvailableDefaultAudioEndpoint
        )]
    );
    assert!(matches!(device, DeviceSlot::Missing));
}

#[test]
fn seek_round_trip_reports_the_requested_second() {
    let mut player = Player::new();
    let mut device = DeviceSlot::Missing;
    let mut source =
        Some(SourceScheduler::open(&vec![track(44100, 4_410_000)], 1024, 32).unwrap());
    // the container lands exactly on the requested second
    let aux = CommandAux {
        restore_seek: None,
        seek: Some(Ok(7 * 44100)),
        new_delay: None,
    };
    let (ev, _) = player.apply_command(
        &mut device,
        &mut source,
        Command::Seek(7),
        CommandIo::Nothing,
        aux,
    );
    assert_eq!(ev, vec![PlayerEvent::Progress(7)]);
    let progress = player.get_progress_millis();
    assert!(7000 <= progress && progress < 8000);
}

#[test]
fn seek_beyond_the_duration_is_clamped() {
    let mut player = Player::new();
    let mut device = DeviceSlot::Missing;
    let mut source =
        Some(SourceScheduler::open(&vec![track(44100, 4_410_000)], 1024, 32).unwrap());
    let aux = CommandAux {
        restore_seek: None,
        seek: Some(Ok(100 * 44100)),
        new_delay: None,
    };
    let (ev, _) = player.apply_command(
        &mut device,
        &mut source,
        Command::Seek(500),
        CommandIo::Nothing,
        aux,
    );
    assert_eq!(ev, vec![PlayerEvent::Progress(100)]);
}

#[test]
fn a_failing_source_tick_discards_the_source() {
    let player = Player::new();
    let mut source =
        Some(SourceScheduler::open(&vec![track(44100, 4_410_000)], 1024, 32).unwrap());
    let ev = player.tick_source_failed(&mut source);
    assert_eq!(
        ev,
        vec![PlayerEvent::SourceError(SourceException::IncorrectFile, None)]
    );
    assert!(source.is_none());
}

#[test]
fn a_failing_device_tick_demotes_but_retains_the_device() {
    let player = Player::new();
    let mut device = DeviceSlot::Working(
        rhythm_player::device::DeviceScheduler::activate(&float_descriptor(48000), 4800).unwrap(),
    );
    let ev = player.tick_device_failed(&mut device, DeviceException::SilentException);
    assert_eq!(
        ev,
        vec![PlayerEvent::DeviceError(DeviceException::SilentException)]
    );
    assert!(matches!(device, DeviceSlot::Broken(_)));
}

#[test]
fn device_hot_swap_mid_playback_keeps_the_position() {
    let mut player = Player::new();
    let mut device = DeviceSlot::Missing;
    let mut source: Option<SourceScheduler> = None;

    let (ev, _) = player.apply_command(
        &mut device,
        &mut source,
        Command::SelectMode(AudioEndpoint::Default, Volume::new(1000)),
        CommandIo::DeviceOpen(Ok((float_descriptor(48000), 48000))),
        no_aux(),
    );
    assert!(ev.is_empty());
    let engine = SourceScheduler::open(&vec![track(44100, 4_410_000)], 1024, 32).unwrap();
    let aux = CommandAux { restore_seek: None, seek: None, new_delay: Some(32) };
    player.apply_command(
        &mut device,
        &mut source,
        Command::SelectTrack(String::from("a.flac"), String::from("song-1")),
        CommandIo::SourceOpen(Ok(engine)),
        aux,
    );
    player.apply_command(&mut device, &mut source, Command::Play, CommandIo::Nothing, no_aux());
    assert!(player.get_is_playing());

    // stream once so the startup delay is trimmed
    {
        let s = source.as_mut().unwrap();
        s.begin_request(1);
        assert_eq!(s.next_step(), SourceStep::NeedPacket);
        s.on_packet(frames(0, 1024));
        assert!(matches!(s.next_step(), SourceStep::Resample(_)));
        s.on_resampled(frames(0, 33));
        assert!(matches!(s.next_step(), SourceStep::Stream(Ok(Some(_)))));
        assert!(s.determine_additional_seek_necessity());
    }

    // playback has advanced to 42.7 seconds
    let (ev, demote) = player.tick_progress(&source, false, Ok(42_700));
    assert!(!demote);
    assert_eq!(ev, vec![PlayerEvent::Progress(42)]);
    assert_eq!(player.get_progress_millis(), 42_700);

    // the system reports a format change: re-negotiate at 44.1 kHz; the
    // restoring seek lands on 42.7 seconds in container timestamps
    let aux = CommandAux {
        restore_seek: Some(Ok(1_883_070)),
        seek: None,
        new_delay: Some(30),
    };
    let (ev, _) = player.apply_command(
        &mut device,
        &mut source,
        Command::CorrectDeviceFormat,
        CommandIo::FormatFetch(Ok((float_descriptor(44100), 44100))),
        aux,
    );

    // progress was not reset: the following report is 42, not 0
    assert_eq!(ev, vec![PlayerEvent::Progress(42)]);
    assert_eq!(player.get_progress_millis(), 42_700);
    match &device {
        DeviceSlot::Working(d) => assert_eq!(d.get_sample_rate(), 44100),
        _ => panic!("the corrected device must be working"),
    }
    assert!(!source.as_ref().unwrap().determine_additional_seek_necessity());
}

#[test]
fn full_playback_of_a_hundred_second_file() {
    // a 100-second file at native rate 44100; the device negotiates 48000
    let total_native: u64 = 4_410_500;
    let mut player = Player::new();
    let mut device = DeviceSlot::Missing;
    let mut source: Option<SourceScheduler> = None;

    let (ev, _) = player.apply_command(
        &mut device,
        &mut source,
        Command::SelectMode(AudioEndpoint::Default, Volume::new(1000)),
        CommandIo::DeviceOpen(Ok((float_descriptor(48000), 48000))),
        no_aux(),
    );
    assert!(ev.is_empty());

    let engine = SourceScheduler::open(&vec![track(44100, total_native)], 1024, 32).unwrap();
    assert_eq!(engine.get_duration(), 100);
    let aux = CommandAux { restore_seek: None, seek: None, new_delay: Some(32) };
    let (ev, _) = player.apply_command(
        &mut device,
        &mut source,
        Command::SelectTrack(String::from("long.flac"), String::from("song-7")),
        CommandIo::SourceOpen(Ok(engine)),
        aux,
    );
    assert_eq!(
        ev,
        vec![
            PlayerEvent::Track(Some(String::from("song-7"))),
            PlayerEvent::Progress(0),
        ]
    );
    let (ev, _) =
        player.apply_command(&mut device, &mut source, Command::Play, CommandIo::Nothing, no_aux());
    assert_eq!(ev, vec![PlayerEvent::State(true)]);

    // the outside world: packets from the container, an ideal resampler
    // with a 32-frame startup delay, and a device whose buffer drains
    // completely between ticks
    let mut native_fed: u64 = 0;
    let mut sim_in: u64 = 0;
    let mut sim_out: u64 = 0;
    let mut label: u32 = 0;
    let mut written: u64 = 0;

    let mut progress_events: Vec<u32> = Vec::new();
    let mut finish_count = 0;
    let mut events_after_finish = 0;
    let mut ticks = 0;

    loop {
        ticks += 1;
        assert!(ticks < 200, "playback did not finish");
        player.tick_idle_pause(&mut device, &source);
        assert!(player.tick_should_render(&device, &source));

        let expected = match &mut device {
            DeviceSlot::Working(d) => d.get_expected_frame_count(true, Ok(0)).unwrap(),
            _ => panic!("device lost"),
        };

        let outcome = {
            let s = source.as_mut().unwrap();
            s.begin_request(expected);
            loop {
                match s.next_step() {
                    SourceStep::NeedPacket => {
                        if native_fed < total_native {
                            let n = std::cmp::min(1024, total_native - native_fed);
                            s.on_packet(frames(native_fed as u32, n));
                            native_fed += n;
                        } else {
                            s.on_packet_end();
                        }
                    },
                    SourceStep::Resample(input) | SourceStep::ResampleTail(input) => {
                        sim_in += input.len() as u64;
                        let ideal = sim_in * 48000 / 44100 + 32;
                        let n = ideal - sim_out;
                        s.on_resampled(frames(label, n));
                        label = label.wrapping_add(n as u32);
                        sim_out = ideal;
                    },
                    SourceStep::Flush => {
                        let ideal = sim_in * 48000 / 44100 + 32 + 3;
                        let n = ideal - sim_out;
                        s.on_flushed(frames(label, n));
                        label = label.wrapping_add(n as u32);
                        sim_out = ideal;
                    },
                    SourceStep::Stream(r) => break r,
                }
            }
        };
        let stream = outcome.expect("the stream must stay decodable");

        let (finished, wrote_now) = match &mut device {
            DeviceSlot::Working(d) => {
                let plan = d.play_begin(stream);
                let wrote = plan.frames.is_some();
                let count = match &plan.frames {
                    Some(f) => f.len() as u64,
                    None => 0,
                };
                (d.play_commit(plan.drain, wrote, true, true, true).unwrap(), count)
            },
            _ => panic!("device lost"),
        };
        written += wrote_now;

        let offset = written * 1000 / 48000;
        let (ev, demote) = player.tick_progress(&source, finished, Ok(offset));
        assert!(!demote);
        for e in ev {
            if finish_count > 0 {
                events_after_finish += 1;
            }
            match e {
                PlayerEvent::Progress(s) => progress_events.push(s),
                PlayerEvent::Finish => finish_count += 1,
                other => panic!("unexpected event {:?}", other),
            }
        }
        if finished {
            break;
        }
    }

    // exactly one finish, and nothing after it
    assert_eq!(finish_count, 1);
    assert_eq!(events_after_finish, 0);
    // non-decreasing whole seconds, ending at the declared duration
    assert!(!progress_events.is_empty());
    let mut previous = 0;
    for &s in &progress_events {
        assert!(s >= previous, "progress went backwards");
        previous = s;
    }
    assert_eq!(*progress_events.last().unwrap(), 100);
    // with the stream over, the loop goes back to blocking on commands
    assert!(player.drain_should_wait(&device));
}

#[test]
fn default_endpoint_correction_is_ignored_in_custom_mode() {
    let mut player = Player::new();
    let mut device = DeviceSlot::Missing;
    let mut source: Option<SourceScheduler> = None;
    // a fresh session has no default endpoint selected
    assert!(!player.get_uses_default_endpoint());
    let (ev, closed) = player.apply_command(
        &mut device,
        &mut source,
        Command::CorrectAudioEndpointDefault,
        CommandIo::Nothing,
        no_aux(),
    );
    assert!(ev.is_empty());
    assert!(!closed);
}

#[test]
fn a_clock_failure_keeps_the_old_progress_and_demotes_the_device() {
    let mut player = Player::new();
    let source: Option<SourceScheduler> = None;
    let (ev, demote) = player.tick_progress(&source, false, Ok(5_500));
    assert!(!demote);
    assert_eq!(ev, vec![PlayerEvent::Progress(5)]);
    let (ev, demote) =
        player.tick_progress(&source, false, Err(DeviceException::SilentException));
    assert!(demote);
    assert_eq!(ev, vec![PlayerEvent::Progress(5)]);
    assert_eq!(player.get_progress_millis(), 5_500);
}

#[test]
fn a_broken_device_is_promoted_back_by_a_format_correction() {
    let mut player = Player::new();
    let mut device = DeviceSlot::Missing;
    let mut source: Option<SourceScheduler> = None;
    player.apply_command(
        &mut device,
        &mut source,
        Command::SelectMode(AudioEndpoint::Default, Volume::new(1000)),
        CommandIo::DeviceOpen(Ok((float_descriptor(48000), 48000))),
        no_aux(),
    );
    let ev = player.tick_device_failed(&mut device, DeviceException::SilentException);
    assert_eq!(
        ev,
        vec![PlayerEvent::DeviceError(DeviceException::SilentException)]
    );
    assert!(matches!(device, DeviceSlot::Broken(_)));
    let (ev, _) = player.apply_command(
        &mut device,
        &mut source,
        Command::CorrectDeviceFormat,
        CommandIo::FormatFetch(Ok((float_descriptor(48000), 48000))),
        no_aux(),
    );
    assert!(ev.is_empty());
    assert!(matches!(device, DeviceSlot::Working(_)));
}

#[test]
fn stop_pauses_and_rewinds_to_zero() {
    let mut player = Player::new();
    let mut device = DeviceSlot::Missing;
    let mut source =
        Some(SourceScheduler::open(&vec![track(44100, 4_410_000)], 1024, 32).unwrap());
    let aux = CommandAux { restore_seek: None, seek: Some(Ok(0)), new_delay: None };
    let (ev, _) = player.apply_command(
        &mut device,
        &mut source,
        Command::Stop,
        CommandIo::Nothing,
        aux,
    );
    assert_eq!(ev, vec![PlayerEvent::Progress(0), PlayerEvent::State(false)]);
    assert!(!player.get_is_playing());
    assert_eq!(player.get_progress_millis(), 0);
}

#[test]
fn volume_changes_silently() {
    let mut player = Player::new();
    let mut device = DeviceSlot::Missing;
    let mut source: Option<SourceScheduler> = None;
    let (ev, _) = player.apply_command(
        &mut device,
        &mut source,
        Command::ModifyVolume(Volume::new(250)),
        CommandIo::Nothing,
        no_aux(),
    );
    assert!(ev.is_empty());
    assert_eq!(player.get_volume().get(), 250);
}

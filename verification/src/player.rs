//! The player loop's state machine: applies each drained command to the
//! session state and the two sub-schedulers in isolation, then applies the
//! deferred effects in a fixed order (device rebuild, track announcement,
//! pause, seek, source-error announcement, timeline re-anchor announcement,
//! play-state announcement), so that one coalesced batch produces exactly
//! one consistent sequence of outward events.
//!
//! The loop itself — channels, the outside device and container calls —
//! is run by the caller, which reports each call's plain result here.

use vstd::prelude::*;
use crate::command::{Command, Volume};
use crate::device::{
    DeviceException, DeviceModel, DeviceScheduler, MixFormatDescriptor, format_mapping, negotiable,
};
use crate::source::{
    next_step_rel,
    SourceException, SourceModel, SourceScheduler, timestamp_millis, timestamp_seconds,
};

verus! {

/// One outward lifecycle event, delivered in order to the observer.
#[derive(Debug, PartialEq, Eq)]
pub enum PlayerEvent {
    Initialization(bool),
    DeviceError(DeviceException),
    /// A source failure, tagged with the failing track's identifier.
    SourceError(SourceException, Option<String>),
    /// The current track changed; the payload is the new identifier.
    Track(Option<String>),
    /// The current playback position, in whole seconds.
    Progress(u32),
    /// The play/pause state; true means playing.
    State(bool),
    Finish,
}

/// The spec-level form of an event, with strings as character sequences.
pub enum EventModel {
    Initialization(bool),
    DeviceError(DeviceException),
    SourceError(SourceException, Option<Seq<char>>),
    Track(Option<Seq<char>>),
    Progress(int),
    State(bool),
    Finish,
}

pub open spec fn id_view(x: Option<String>) -> Option<Seq<char>> {
    match x {
        Some(s) => Some(s@),
        None => None,
    }
}

pub open spec fn event_model(e: PlayerEvent) -> EventModel {
    match e {
        PlayerEvent::Initialization(b) => EventModel::Initialization(b),
        PlayerEvent::DeviceError(x) => EventModel::DeviceError(x),
        PlayerEvent::SourceError(x, id) => EventModel::SourceError(x, id_view(id)),
        PlayerEvent::Track(id) => EventModel::Track(id_view(id)),
        PlayerEvent::Progress(s) => EventModel::Progress(s as int),
        PlayerEvent::State(b) => EventModel::State(b),
        PlayerEvent::Finish => EventModel::Finish,
    }
}

pub open spec fn events_model(s: Seq<PlayerEvent>) -> Seq<EventModel> {
    s.map_values(|e: PlayerEvent| event_model(e))
}

/// The second a progress event reports for a position in milliseconds;
/// positions beyond the 32-bit range saturate.
pub open spec fn event_second(ms: int) -> int {
    if ms / 1000 > u32::MAX as int {
        u32::MAX as int
    } else {
        ms / 1000
    }
}

/// At most one device session exists; a broken one is retained with its
/// configuration remembered, awaiting a correction command.
pub enum DeviceSlot {
    Missing,
    Working(DeviceScheduler),
    Broken(DeviceScheduler),
}

pub enum DeviceSlotModel {
    Missing,
    Working(DeviceModel),
    Broken(DeviceModel),
}

pub open spec fn slot_model(d: DeviceSlot) -> DeviceSlotModel {
    match d {
        DeviceSlot::Missing => DeviceSlotModel::Missing,
        DeviceSlot::Working(s) => DeviceSlotModel::Working(s.model()),
        DeviceSlot::Broken(s) => DeviceSlotModel::Broken(s.model()),
    }
}

pub open spec fn slot_wf(d: DeviceSlot) -> bool {
    match d {
        DeviceSlot::Missing => true,
        DeviceSlot::Working(s) => s.wf(),
        DeviceSlot::Broken(s) => s.wf(),
    }
}

pub open spec fn source_model_opt(s: Option<SourceScheduler>) -> Option<SourceModel> {
    match s {
        Some(x) => Some(x.model()),
        None => None,
    }
}

pub open spec fn source_wf_opt(s: Option<SourceScheduler>) -> bool {
    match s {
        Some(x) => x.wf(),
        None => true,
    }
}

/// The session state owned by the player loop.
pub struct Player {
    uses_default_endpoint: bool,
    volume: Volume,
    identifier: Option<String>,
    timeline_anchor_millis: u64,
    progress_millis: u64,
    is_playing: bool,
}

#[verifier::ext_equal]
pub struct PlayerModel {
    pub uses_default_endpoint: bool,
    pub volume_level: int,
    pub identifier: Option<Seq<char>>,
    pub anchor_millis: int,
    pub progress_millis: int,
    pub playing: bool,
}

/// The outside results a command needs: what the device activation or the
/// container probe returned.
pub enum CommandIo {
    Nothing,
    /// Endpoint activation: the device's mix-format descriptor and granted
    /// buffer size, or the failure that stopped the activation.
    DeviceOpen(Result<(MixFormatDescriptor, u32), DeviceException>),
    /// Re-negotiation against the same device after a format change.
    FormatFetch(Result<(MixFormatDescriptor, u32), DeviceException>),
    /// The opened source engine for the selected file, or the open failure.
    SourceOpen(Result<SourceScheduler, SourceException>),
}

pub enum IoModel {
    Nothing,
    DeviceOpen(Result<(MixFormatDescriptor, u32), DeviceException>),
    FormatFetch(Result<(MixFormatDescriptor, u32), DeviceException>),
    SourceOpen(Result<SourceModel, SourceException>),
}

pub open spec fn io_model(io: CommandIo) -> IoModel {
    match io {
        CommandIo::Nothing => IoModel::Nothing,
        CommandIo::DeviceOpen(r) => IoModel::DeviceOpen(r),
        CommandIo::FormatFetch(r) => IoModel::FormatFetch(r),
        CommandIo::SourceOpen(r) => IoModel::SourceOpen(
            match r {
                Ok(s) => Ok(s.model()),
                Err(e) => Err(e),
            },
        ),
    }
}

/// The auxiliary outside results of a command's deferred effects.
pub struct CommandAux {
    /// The container timestamp the position-restoring seek landed on when
    /// a device rebuild found a delay-compensated source.
    pub restore_seek: Option<Result<u64, SourceException>>,
    /// The container timestamp a requested seek landed on.
    pub seek: Option<Result<u64, SourceException>>,
    /// The resampler's reported output delay after its ratio changed.
    pub new_delay: Option<usize>,
}

// ------------------------------------------------------------------
// The spec-level transition.
// ------------------------------------------------------------------

pub open spec fn seek_reset(s: SourceModel) -> SourceModel {
    SourceModel {
        trimmed: false,
        input_frames: 0,
        output_frames: 0,
        pending: Seq::empty(),
        buffered: Seq::empty(),
        eos: false,
        requested: None,
        ..s
    }
}

pub open spec fn rate_synced(s: SourceModel, rate: int, nd: int) -> SourceModel {
    SourceModel { target_rate: rate, delay: nd, ..s }
}

/// The timeline anchor, in milliseconds, for a seek that landed on
/// container timestamp `ts`.
pub open spec fn achieved_anchor_ms(s: SourceModel, ts: int) -> int {
    (timestamp_seconds(ts, s.tb_numer, s.tb_denom) % 0x1_0000_0000) * 1000 + timestamp_millis(
        ts,
        s.tb_numer,
        s.tb_denom,
    )
}

#[verifier::ext_equal]
pub struct RateSyncOut {
    pub source: Option<SourceModel>,
    pub anchor: Option<int>,
    pub failed: Option<SourceException>,
}

/// What happens to the source when the device's output rate changed: a
/// delay-compensated source is first re-seeked to the live position (its
/// achieved position re-anchors the timeline), then the new rate and delay
/// are recorded.
pub open spec fn rate_sync(
    sm: Option<SourceModel>,
    rate: int,
    nd: int,
    restore: Option<Result<u64, SourceException>>,
) -> RateSyncOut {
    match sm {
        None => RateSyncOut { source: None, anchor: None, failed: None },
        Some(s) => {
            if s.trimmed {
                match restore {
                    Some(Ok(ts)) => RateSyncOut {
                        source: Some(rate_synced(seek_reset(s), rate, nd)),
                        anchor: Some(achieved_anchor_ms(s, ts as int)),
                        failed: None,
                    },
                    Some(Err(e)) => RateSyncOut {
                        source: Some(rate_synced(s, rate, nd)),
                        anchor: None,
                        failed: Some(e),
                    },
                    None => RateSyncOut {
                        source: Some(rate_synced(s, rate, nd)),
                        anchor: None,
                        failed: None,
                    },
                }
            } else {
                RateSyncOut { source: Some(rate_synced(s, rate, nd)), anchor: None, failed: None }
            }
        },
    }
}

#[verifier::ext_equal]
pub struct ApplyOut {
    pub session: PlayerModel,
    pub device: DeviceSlotModel,
    pub source: Option<SourceModel>,
    pub events: Seq<EventModel>,
    pub closed: bool,
}

/// The deferred effects after a successful device rebuild at `rate`: the
/// possible source discard with its error announcement, then the possible
/// timeline re-anchor with its progress announcement.
pub open spec fn device_update_aftermath(
    sp: PlayerModel,
    dm: DeviceSlotModel,
    sm: Option<SourceModel>,
    rate: int,
    nd: int,
    restore: Option<Result<u64, SourceException>>,
) -> ApplyOut {
    let o = rate_sync(sm, rate, nd, restore);
    let sm2 = if o.failed is Some {
        None
    } else {
        o.source
    };
    let ev_err: Seq<EventModel> = match o.failed {
        Some(e) => seq![EventModel::SourceError(e, sp.identifier)],
        None => Seq::empty(),
    };
    match o.anchor {
        Some(a) => ApplyOut {
            session: PlayerModel { anchor_millis: a, progress_millis: a, ..sp },
            device: dm,
            source: sm2,
            events: ev_err + seq![EventModel::Progress(event_second(a))],
            closed: false,
        },
        None => ApplyOut { session: sp, device: dm, source: sm2, events: ev_err, closed: false },
    }
}

/// A device-opening command's outcome: on success the new session replaces
/// the slot and the source is synced to its rate; on failure the slot is
/// emptied and the failure announced.
pub open spec fn device_open_outcome(
    sp: PlayerModel,
    sm: Option<SourceModel>,
    r: Result<(MixFormatDescriptor, u32), DeviceException>,
    nd: int,
    restore: Option<Result<u64, SourceException>>,
) -> ApplyOut {
    match r {
        Ok((desc, buf)) => {
            if negotiable(desc) {
                let devm = DeviceModel {
                    format: format_mapping(desc)->Some_0,
                    sample_rate: desc.samples_per_sec as int,
                    buffer_frames: buf as int,
                    started: false,
                    finished: false,
                };
                device_update_aftermath(
                    sp,
                    DeviceSlotModel::Working(devm),
                    sm,
                    devm.sample_rate,
                    nd,
                    restore,
                )
            } else {
                ApplyOut {
                    session: sp,
                    device: DeviceSlotModel::Missing,
                    source: sm,
                    events: seq![
                        EventModel::DeviceError(DeviceException::UnsupportedDeviceFormat),
                    ],
                    closed: false,
                }
            }
        },
        Err(e) => ApplyOut {
            session: sp,
            device: DeviceSlotModel::Missing,
            source: sm,
            events: seq![EventModel::DeviceError(e)],
            closed: false,
        },
    }
}

/// A format-correction's outcome against the retained device session `d`:
/// success re-negotiates in place and promotes a broken session back to
/// working; failure discards the session.
pub open spec fn format_correct_outcome(
    sp: PlayerModel,
    d: DeviceModel,
    sm: Option<SourceModel>,
    r: Result<(MixFormatDescriptor, u32), DeviceException>,
    nd: int,
    restore: Option<Result<u64, SourceException>>,
) -> ApplyOut {
    match r {
        Ok((desc, buf)) => {
            if negotiable(desc) {
                let devm = DeviceModel {
                    format: format_mapping(desc)->Some_0,
                    sample_rate: desc.samples_per_sec as int,
                    buffer_frames: buf as int,
                    started: false,
                    finished: d.finished,
                };
                device_update_aftermath(
                    sp,
                    DeviceSlotModel::Working(devm),
                    sm,
                    devm.sample_rate,
                    nd,
                    restore,
                )
            } else {
                ApplyOut {
                    session: sp,
                    device: DeviceSlotModel::Missing,
                    source: sm,
                    events: seq![
                        EventModel::DeviceError(DeviceException::UnsupportedDeviceFormat),
                    ],
                    closed: false,
                }
            }
        },
        Err(e) => ApplyOut {
            session: sp,
            device: DeviceSlotModel::Missing,
            source: sm,
            events: seq![EventModel::DeviceError(e)],
            closed: false,
        },
    }
}

/// A requested seek's outcome (`target` is already clamped to the
/// duration): the anchor moves to the requested second, the source (when
/// one exists) seeks and re-anchors to its achieved position — or is
/// discarded on failure — and a working device is re-synced and reset.
pub open spec fn seek_outcome(
    sp: PlayerModel,
    dm: DeviceSlotModel,
    sm: Option<SourceModel>,
    target: int,
    seek_io: Option<Result<u64, SourceException>>,
    nd: int,
) -> ApplyOut {
    let requested_ms = target * 1000;
    match sm {
        None => ApplyOut {
            session: PlayerModel {
                anchor_millis: requested_ms,
                progress_millis: requested_ms,
                ..sp
            },
            device: dm,
            source: sm,
            events: seq![EventModel::Progress(event_second(requested_ms))],
            closed: false,
        },
        Some(s) => match seek_io {
            Some(Ok(ts)) => {
                let a = achieved_anchor_ms(s, ts as int);
                let s1 = seek_reset(s);
                let (s2, dm2) = match dm {
                    DeviceSlotModel::Working(d) => (
                        rate_synced(s1, d.sample_rate, nd),
                        DeviceSlotModel::Working(
                            DeviceModel { started: false, finished: false, ..d },
                        ),
                    ),
                    _ => (s1, dm),
                };
                ApplyOut {
                    session: PlayerModel { anchor_millis: a, progress_millis: a, ..sp },
                    device: dm2,
                    source: Some(s2),
                    events: seq![EventModel::Progress(event_second(a))],
                    closed: false,
                }
            },
            Some(Err(e)) => ApplyOut {
                session: PlayerModel {
                    anchor_millis: requested_ms,
                    progress_millis: requested_ms,
                    ..sp
                },
                device: dm,
                source: None,
                events: seq![
                    EventModel::SourceError(e, sp.identifier),
                    EventModel::Progress(event_second(requested_ms)),
                ],
                closed: false,
            },
            None => ApplyOut {
                session: PlayerModel {
                    anchor_millis: requested_ms,
                    progress_millis: requested_ms,
                    ..sp
                },
                device: dm,
                source: sm,
                events: seq![EventModel::Progress(event_second(requested_ms))],
                closed: false,
            },
        },
    }
}

pub open spec fn source_duration_or_zero(sm: Option<SourceModel>) -> int {
    match sm {
        Some(s) => s.duration,
        None => 0,
    }
}

pub open spec fn clamped_seek_target(sm: Option<SourceModel>, second: int) -> int {
    if second > source_duration_or_zero(sm) {
        source_duration_or_zero(sm)
    } else {
        second
    }
}

pub open spec fn aux_nd(nd: Option<usize>) -> int {
    match nd {
        Some(n) => n as int,
        None => 0,
    }
}

/// The complete transition of one applied command: the new session state,
/// device slot, source, the ordered outward events, and whether the loop
/// must exit.
pub open spec fn apply_outcome(
    sp: PlayerModel,
    dm: DeviceSlotModel,
    sm: Option<SourceModel>,
    cmd: Command,
    iom: IoModel,
    restore: Option<Result<u64, SourceException>>,
    seek_io: Option<Result<u64, SourceException>>,
    nd: Option<usize>,
) -> ApplyOut {
    let unchanged = ApplyOut {
        session: sp,
        device: dm,
        source: sm,
        events: Seq::empty(),
        closed: false,
    };
    match cmd {
        Command::SelectMode(endpoint, vol) => {
            let sp1 = PlayerModel {
                uses_default_endpoint: endpoint is Default,
                volume_level: vol.level(),
                ..sp
            };
            match iom {
                IoModel::DeviceOpen(r) => device_open_outcome(sp1, sm, r, aux_nd(nd), restore),
                _ => unchanged,
            }
        },
        Command::CorrectAudioEndpointDefault => {
            if sp.uses_default_endpoint {
                match iom {
                    IoModel::DeviceOpen(r) => device_open_outcome(sp, sm, r, aux_nd(nd), restore),
                    _ => unchanged,
                }
            } else {
                unchanged
            }
        },
        Command::CorrectDeviceFormat => {
            match dm {
                DeviceSlotModel::Missing => unchanged,
                DeviceSlotModel::Working(d) => match iom {
                    IoModel::FormatFetch(r) => format_correct_outcome(
                        sp,
                        d,
                        sm,
                        r,
                        aux_nd(nd),
                        restore,
                    ),
                    _ => unchanged,
                },
                DeviceSlotModel::Broken(d) => match iom {
                    IoModel::FormatFetch(r) => format_correct_outcome(
                        sp,
                        d,
                        sm,
                        r,
                        aux_nd(nd),
                        restore,
                    ),
                    _ => unchanged,
                },
            }
        },
        Command::ModifyVolume(vol) => ApplyOut {
            session: PlayerModel { volume_level: vol.level(), ..sp },
            device: dm,
            source: sm,
            events: Seq::empty(),
            closed: false,
        },
        Command::SelectTrack(_path, id) => {
            let sp1 = PlayerModel {
                identifier: Some(id@),
                anchor_millis: 0,
                progress_millis: 0,
                ..sp
            };
            match iom {
                IoModel::SourceOpen(r) => {
                    let ev_open: Seq<EventModel> = match r {
                        Ok(_) => Seq::empty(),
                        Err(e) => seq![EventModel::SourceError(e, Some(id@))],
                    };
                    let sm1: Option<SourceModel> = match r {
                        Ok(s) => Some(s),
                        Err(_) => None,
                    };
                    let (sm2, dm2) = match dm {
                        DeviceSlotModel::Working(d) => (
                            match sm1 {
                                Some(s) => Some(rate_synced(s, d.sample_rate, aux_nd(nd))),
                                None => None,
                            },
                            DeviceSlotModel::Working(
                                DeviceModel { started: false, finished: false, ..d },
                            ),
                        ),
                        _ => (sm1, dm),
                    };
                    ApplyOut {
                        session: sp1,
                        device: dm2,
                        source: sm2,
                        events: ev_open + seq![
                            EventModel::Track(Some(id@)),
                            EventModel::Progress(0),
                        ],
                        closed: false,
                    }
                },
                _ => unchanged,
            }
        },
        Command::ClearTrack => {
            let dm2 = match dm {
                DeviceSlotModel::Working(d) => DeviceSlotModel::Working(
                    DeviceModel { started: false, finished: false, ..d },
                ),
                _ => dm,
            };
            ApplyOut {
                session: PlayerModel {
                    identifier: None,
                    anchor_millis: 0,
                    progress_millis: 0,
                    playing: false,
                    ..sp
                },
                device: dm2,
                source: None,
                events: seq![
                    EventModel::Track(None),
                    EventModel::Progress(0),
                    EventModel::State(false),
                ],
                closed: false,
            }
        },
        Command::Seek(second) => seek_outcome(
            sp,
            dm,
            sm,
            clamped_seek_target(sm, second as int),
            seek_io,
            aux_nd(nd),
        ),
        Command::Play => {
            if sp.identifier is Some {
                ApplyOut {
                    session: PlayerModel { playing: true, ..sp },
                    device: dm,
                    source: sm,
                    events: seq![EventModel::State(true)],
                    closed: false,
                }
            } else {
                unchanged
            }
        },
        Command::Pause => ApplyOut {
            session: PlayerModel { playing: false, ..sp },
            device: dm,
            source: sm,
            events: seq![EventModel::State(false)],
            closed: false,
        },
        Command::Stop => {
            let o = seek_outcome(
                PlayerModel { playing: false, ..sp },
                dm,
                sm,
                0,
                seek_io,
                aux_nd(nd),
            );
            ApplyOut { events: o.events + seq![EventModel::State(false)], ..o }
        },
        Command::Close => ApplyOut { closed: true, ..unchanged },
    }
}

/// Whether the command, with the outside results it came with, replaces or
/// re-negotiates the device session successfully.
pub open spec fn device_update_success(
    sp: PlayerModel,
    dm: DeviceSlotModel,
    cmd: Command,
    iom: IoModel,
) -> bool {
    match cmd {
        Command::SelectMode(_, _) => (iom matches IoModel::DeviceOpen(Ok((d, _))) && negotiable(
            d,
        )),
        Command::CorrectAudioEndpointDefault => sp.uses_default_endpoint && (
        iom matches IoModel::DeviceOpen(Ok((d, _))) && negotiable(d)),
        Command::CorrectDeviceFormat => !(dm is Missing) && (iom matches IoModel::FormatFetch(
            Ok((d, _)),
        ) && negotiable(d)),
        _ => false,
    }
}

// ------------------------------------------------------------------
// The executable state machine.
// ------------------------------------------------------------------

/// The saturating whole second a progress event reports.
fn event_second_exec(ms: u64) -> (s: u32)
    ensures
        s as int == event_second(ms as int),
{
    let x = ms / 1000;
    if x > 0xFFFF_FFFF {
        u32::MAX
    } else {
        x as u32
    }
}

fn clone_id(x: &Option<String>) -> (r: Option<String>)
    ensures
        id_view(r) == id_view(*x),
{
    match x {
        Some(s) => Some(s.clone()),
        None => None,
    }
}

/// Re-syncs the source to a rebuilt device's rate: a delay-compensated
/// source is first re-seeked to the live position (the achieved position
/// is returned for re-anchoring), then the new rate and resampler delay
/// are recorded. A failed restoring seek is reported for the deferred
/// error phase.
fn sync_source(
    source: &mut Option<SourceScheduler>,
    rate: u32,
    nd: Option<usize>,
    restore: Option<Result<u64, SourceException>>,
) -> (out: (Option<u64>, Option<SourceException>))
    requires
        44100 <= rate <= 192000,
        source_wf_opt(*old(source)),
        (restore is Some <==> (source_model_opt(*old(source)) matches Some(s) && s.trimmed)),
        (nd is Some <==> (*old(source)) is Some),
    ensures
        source_wf_opt(*final(source)),
        ({
            let o = rate_sync(
                source_model_opt(*old(source)),
                rate as int,
                aux_nd(nd),
                restore,
            );
            &&& source_model_opt(*final(source)) == o.source
            &&& (match out.0 {
                Some(a) => Some(a as int),
                None => None::<int>,
            }) == o.anchor
            &&& out.1 == o.failed
        }),
{
    match source {
        None => (None, None),
        Some(s) => {
            let mut anchor: Option<u64> = None;
            let mut failed: Option<SourceException> = None;
            if s.determine_additional_seek_necessity() {
                match restore {
                    Some(Ok(ts)) => {
                        let (sec, milli) = s.apply_seek(ts);
                        anchor = Some((sec as u64) * 1000 + (milli as u64));
                    },
                    Some(Err(e)) => {
                        failed = Some(e);
                    },
                    None => {},
                }
            }
            let ndv = match nd {
                Some(n) => n,
                None => 0,
            };
            s.set_output_sample_rate(rate, ndv);
            (anchor, failed)
        },
    }
}

impl Player {
    pub closed spec fn model(self) -> PlayerModel {
        PlayerModel {
            uses_default_endpoint: self.uses_default_endpoint,
            volume_level: self.volume.level(),
            identifier: id_view(self.identifier),
            anchor_millis: self.timeline_anchor_millis as int,
            progress_millis: self.progress_millis as int,
            playing: self.is_playing,
        }
    }

    pub open spec fn wf(self) -> bool {
        0 <= self.model().volume_level <= 1000
    }

    /// A fresh session: default endpoint not yet selected, full volume, no
    /// track, position zero, paused.
    pub fn new() -> (p: Player)
        ensures
            p.wf(),
            p.model() == (PlayerModel {
                uses_default_endpoint: false,
                volume_level: 1000,
                identifier: None,
                anchor_millis: 0,
                progress_millis: 0,
                playing: false,
            }),
    {
        Player {
            uses_default_endpoint: false,
            volume: Volume::new(1000),
            identifier: None,
            timeline_anchor_millis: 0,
            progress_millis: 0,
            is_playing: false,
        }
    }

    pub fn get_is_playing(&self) -> (b: bool)
        ensures
            b == self.model().playing,
    {
        self.is_playing
    }

    pub fn get_uses_default_endpoint(&self) -> (b: bool)
        ensures
            b == self.model().uses_default_endpoint,
    {
        self.uses_default_endpoint
    }

    pub fn get_progress_millis(&self) -> (ms: u64)
        ensures
            ms as int == self.model().progress_millis,
    {
        self.progress_millis
    }

    pub fn get_timeline_anchor_millis(&self) -> (ms: u64)
        ensures
            ms as int == self.model().anchor_millis,
    {
        self.timeline_anchor_millis
    }

    pub fn get_volume(&self) -> (v: Volume)
        ensures
            v.level() == self.model().volume_level,
    {
        self.volume
    }

    pub fn get_identifier(&self) -> (id: Option<String>)
        ensures
            id_view(id) == self.model().identifier,
    {
        clone_id(&self.identifier)
    }

    /// The deferred seek phase shared by `Seek` and `Stop`: re-anchors the
    /// timeline to the clamped target, seeks the source (re-anchoring to
    /// its achieved position, or discarding it on failure), re-syncs and
    /// resets a working device, and announces the new position.
    fn apply_seek_phase(
        &mut self,
        device: &mut DeviceSlot,
        source: &mut Option<SourceScheduler>,
        target: u32,
        seek_io: Option<Result<u64, SourceException>>,
        nd: Option<usize>,
    ) -> (ev: Vec<PlayerEvent>)
        requires
            old(self).wf(),
            slot_wf(*old(device)),
            source_wf_opt(*old(source)),
            (seek_io is Some <==> (*old(source)) is Some),
            (nd is Some <==> ((*old(source)) is Some && (seek_io matches Some(Ok(_))) && (*old(
                device,
            )) is Working)),
        ensures
            final(self).wf(),
            slot_wf(*final(device)),
            source_wf_opt(*final(source)),
            ({
                let o = seek_outcome(
                    old(self).model(),
                    slot_model(*old(device)),
                    source_model_opt(*old(source)),
                    target as int,
                    seek_io,
                    aux_nd(nd),
                );
                &&& final(self).model() == o.session
                &&& slot_model(*final(device)) == o.device
                &&& source_model_opt(*final(source)) == o.source
                &&& events_model(ev@) == o.events
            }),
    {
        let mut events: Vec<PlayerEvent> = Vec::new();
        let requested_ms = (target as u64) * 1000;
        self.timeline_anchor_millis = requested_ms;
        match source {
            None => {},
            Some(s) => {
                match seek_io {
                    Some(Ok(ts)) => {
                        let (sec, milli) = s.apply_seek(ts);
                        let a = (sec as u64) * 1000 + (milli as u64);
                        self.timeline_anchor_millis = a;
                        match device {
                            DeviceSlot::Working(d) => {
                                let ndv = match nd {
                                    Some(n) => n,
                                    None => 0,
                                };
                                s.set_output_sample_rate(d.get_sample_rate(), ndv);
                                d.reset_buffer();
                            },
                            _ => {},
                        }
                    },
                    Some(Err(e)) => {
                        *source = None;
                        events.push(PlayerEvent::SourceError(e, clone_id(&self.identifier)));
                    },
                    None => {},
                }
            },
        }
        self.progress_millis = self.timeline_anchor_millis;
        events.push(PlayerEvent::Progress(event_second_exec(self.progress_millis)));
        let ghost o = seek_outcome(
            old(self).model(),
            slot_model(*old(device)),
            source_model_opt(*old(source)),
            target as int,
            seek_io,
            aux_nd(nd),
        );
        proof {
            assert(self.model() =~= o.session);
            assert(events_model(events@) =~= o.events);
        }
        events
    }

    /// Applies one drained command to the session state and the two
    /// sub-schedulers, emitting the outward events of its deferred effects
    /// in their fixed order. Returns the events and whether a `Close` was
    /// applied, which exits the loop.
    pub fn apply_command(
        &mut self,
        device: &mut DeviceSlot,
        source: &mut Option<SourceScheduler>,
        cmd: Command,
        io: CommandIo,
        aux: CommandAux,
    ) -> (out: (Vec<PlayerEvent>, bool))
        requires
            old(self).wf(),
            slot_wf(*old(device)),
            source_wf_opt(*old(source)),
            (cmd matches Command::SelectMode(_, v) ==> v.valid()),
            (cmd matches Command::ModifyVolume(v) ==> v.valid()),
            (cmd matches Command::SelectMode(_, _) ==> io is DeviceOpen),
            (cmd is CorrectAudioEndpointDefault ==> (old(self).model().uses_default_endpoint
                ==> io is DeviceOpen) && (!old(self).model().uses_default_endpoint
                ==> io is Nothing)),
            (cmd is CorrectDeviceFormat ==> (!((*old(device)) is Missing) ==> io is FormatFetch)
                && ((*old(device)) is Missing ==> io is Nothing)),
            (cmd matches Command::SelectTrack(_, _) ==> io is SourceOpen),
            (io matches CommandIo::SourceOpen(r) ==> (r matches Ok(s) ==> s.wf())),
            ((cmd is ModifyVolume || cmd is ClearTrack || cmd matches Command::Seek(_)
                || cmd is Play || cmd is Pause || cmd is Stop || cmd is Close)
                ==> io is Nothing),
            (aux.restore_seek is Some <==> (device_update_success(
                old(self).model(),
                slot_model(*old(device)),
                cmd,
                io_model(io),
            ) && (source_model_opt(*old(source)) matches Some(s) && s.trimmed))),
            (aux.seek is Some <==> ((cmd matches Command::Seek(_) || cmd is Stop) && (*old(source)) is Some)),
            (aux.new_delay is Some <==> ((device_update_success(
                old(self).model(),
                slot_model(*old(device)),
                cmd,
                io_model(io),
            ) && (*old(source)) is Some) || (cmd matches Command::SelectTrack(_, _) && (
            io matches CommandIo::SourceOpen(Ok(_))) && (*old(device)) is Working) || ((
            cmd matches Command::Seek(_) || cmd is Stop) && (*old(source)) is Some && (
            aux.seek matches Some(Ok(_))) && (*old(device)) is Working))),
        ensures
            final(self).wf(),
            slot_wf(*final(device)),
            source_wf_opt(*final(source)),
            ({
                let o = apply_outcome(
                    old(self).model(),
                    slot_model(*old(device)),
                    source_model_opt(*old(source)),
                    cmd,
                    io_model(io),
                    aux.restore_seek,
                    aux.seek,
                    aux.new_delay,
                );
                &&& final(self).model() == o.session
                &&& slot_model(*final(device)) == o.device
                &&& source_model_opt(*final(source)) == o.source
                &&& events_model(out.0@) == o.events
                &&& out.1 == o.closed
            }),
    {
        let ghost sp = old(self).model();
        let ghost dm0 = slot_model(*old(device));
        let ghost sm0 = source_model_opt(*old(source));
        let ghost o = apply_outcome(
            sp,
            dm0,
            sm0,
            cmd,
            io_model(io),
            aux.restore_seek,
            aux.seek,
            aux.new_delay,
        );
        let mut events: Vec<PlayerEvent> = Vec::new();
        match cmd {
            Command::SelectMode(endpoint, vol) => {
                match io {
                    CommandIo::DeviceOpen(r) => {
                        self.uses_default_endpoint = match endpoint {
                            crate::command::AudioEndpoint::Default => true,
                            crate::command::AudioEndpoint::Custom(_) => false,
                        };
                        self.volume = vol;
                        self.finish_device_open(device, source, r, aux, &mut events);
                    },
                    _ => {},
                }
            },
            Command::CorrectAudioEndpointDefault => {
                if self.uses_default_endpoint {
                    match io {
                        CommandIo::DeviceOpen(r) => {
                            self.finish_device_open(device, source, r, aux, &mut events);
                        },
                        _ => {},
                    }
                }
            },
            Command::CorrectDeviceFormat => {
                let missing = match device {
                    DeviceSlot::Missing => true,
                    _ => false,
                };
                if !missing {
                    match io {
                        CommandIo::FormatFetch(r) => {
                            self.finish_format_correct(device, source, r, aux, &mut events);
                        },
                        _ => {},
                    }
                }
            },
            Command::ModifyVolume(vol) => {
                self.volume = vol;
            },
            Command::SelectTrack(_path, id) => {
                match io {
                    CommandIo::SourceOpen(r) => {
                        self.identifier = Some(id);
                        match r {
                            Ok(engine) => {
                                *source = Some(engine);
                            },
                            Err(e) => {
                                *source = None;
                                events.push(
                                    PlayerEvent::SourceError(e, clone_id(&self.identifier)),
                                );
                            },
                        }
                        events.push(PlayerEvent::Track(clone_id(&self.identifier)));
                        self.timeline_anchor_millis = 0;
                        self.progress_millis = 0;
                        match device {
                            DeviceSlot::Working(d) => {
                                match source {
                                    Some(s) => {
                                        let ndv = match aux.new_delay {
                                            Some(n) => n,
                                            None => 0,
                                        };
                                        s.set_output_sample_rate(d.get_sample_rate(), ndv);
                                    },
                                    None => {},
                                }
                                d.reset_buffer();
                            },
                            _ => {},
                        }
                        events.push(PlayerEvent::Progress(0));
                    },
                    _ => {},
                }
            },
            Command::ClearTrack => {
                self.identifier = None;
                *source = None;
                events.push(PlayerEvent::Track(None));
                self.timeline_anchor_millis = 0;
                self.progress_millis = 0;
                match device {
                    DeviceSlot::Working(d) => {
                        d.reset_buffer();
                    },
                    _ => {},
                }
                self.is_playing = false;
                events.push(PlayerEvent::Progress(0));
                events.push(PlayerEvent::State(false));
            },
            Command::Seek(second) => {
                let duration = match source {
                    Some(s) => s.get_duration(),
                    None => 0,
                };
                let target = if second > duration {
                    duration
                } else {
                    second
                };
                let ev = self.apply_seek_phase(device, source, target, aux.seek, aux.new_delay);
                proof {
                    assert(events@ =~= Seq::<PlayerEvent>::empty());
                }
                events = ev;
            },
            Command::Play => {
                if self.identifier.is_some() {
                    self.is_playing = true;
                    events.push(PlayerEvent::State(true));
                }
            },
            Command::Pause => {
                self.is_playing = false;
                events.push(PlayerEvent::State(false));
            },
            Command::Stop => {
                self.is_playing = false;
                let mut ev = self.apply_seek_phase(device, source, 0, aux.seek, aux.new_delay);
                ev.push(PlayerEvent::State(false));
                proof {
                    assert(events@ =~= Seq::<PlayerEvent>::empty());
                }
                events = ev;
            },
            Command::Close => {
                proof {
                    assert(events_model(events@) =~= o.events);
                }
                return (events, true);
            },
        }
        proof {
            assert(self.model() =~= o.session);
            assert(events_model(events@) =~= o.events);
        }
        (events, false)
    }

    /// The shared tail of a device-opening command.
    fn finish_device_open(
        &mut self,
        device: &mut DeviceSlot,
        source: &mut Option<SourceScheduler>,
        r: Result<(MixFormatDescriptor, u32), DeviceException>,
        aux: CommandAux,
        events: &mut Vec<PlayerEvent>,
    )
        requires
            old(self).wf(),
            source_wf_opt(*old(source)),
            (aux.restore_seek is Some <==> ((r matches Ok((d, _)) && negotiable(d)) && (
            source_model_opt(*old(source)) matches Some(s) && s.trimmed))),
            (aux.new_delay is Some <==> ((r matches Ok((d, _)) && negotiable(d)) && (*old(source)) is Some)),
        ensures
            final(self).wf(),
            slot_wf(*final(device)),
            source_wf_opt(*final(source)),
            ({
                let o = device_open_outcome(
                    old(self).model(),
                    source_model_opt(*old(source)),
                    r,
                    aux_nd(aux.new_delay),
                    aux.restore_seek,
                );
                &&& final(self).model() == o.session
                &&& slot_model(*final(device)) == o.device
                &&& source_model_opt(*final(source)) == o.source
                &&& events_model(final(events)@) == events_model(old(events)@) + o.events
            }),
    {
        let ghost pre_events = events@;
        match r {
            Ok((desc, buf)) => {
                match DeviceScheduler::activate(&desc, buf) {
                    Ok(dev) => {
                        let rate = dev.get_sample_rate();
                        *device = DeviceSlot::Working(dev);
                        self.finish_rate_sync(source, rate, aux, events);
                    },
                    Err(e) => {
                        *device = DeviceSlot::Missing;
                        events.push(PlayerEvent::DeviceError(e));
                        proof {
                            assert(events_model(events@) =~= events_model(pre_events) + seq![
                                EventModel::DeviceError(DeviceException::UnsupportedDeviceFormat),
                            ]);
                        }
                    },
                }
            },
            Err(e) => {
                *device = DeviceSlot::Missing;
                events.push(PlayerEvent::DeviceError(e));
                proof {
                    assert(events_model(events@) =~= events_model(pre_events) + seq![
                        EventModel::DeviceError(e),
                    ]);
                }
            },
        }
    }

    /// The shared tail of a format correction against the retained device.
    fn finish_format_correct(
        &mut self,
        device: &mut DeviceSlot,
        source: &mut Option<SourceScheduler>,
        r: Result<(MixFormatDescriptor, u32), DeviceException>,
        aux: CommandAux,
        events: &mut Vec<PlayerEvent>,
    )
        requires
            old(self).wf(),
            slot_wf(*old(device)),
            source_wf_opt(*old(source)),
            !((*old(device)) is Missing),
            (aux.restore_seek is Some <==> ((r matches Ok((d, _)) && negotiable(d)) && (
            source_model_opt(*old(source)) matches Some(s) && s.trimmed))),
            (aux.new_delay is Some <==> ((r matches Ok((d, _)) && negotiable(d)) && (*old(source)) is Some)),
        ensures
            final(self).wf(),
            slot_wf(*final(device)),
            source_wf_opt(*final(source)),
            ({
                let d0 = match slot_model(*old(device)) {
                    DeviceSlotModel::Working(d) => d,
                    DeviceSlotModel::Broken(d) => d,
                    DeviceSlotModel::Missing => arbitrary(),
                };
                let o = format_correct_outcome(
                    old(self).model(),
                    d0,
                    source_model_opt(*old(source)),
                    r,
                    aux_nd(aux.new_delay),
                    aux.restore_seek,
                );
                &&& final(self).model() == o.session
                &&& slot_model(*final(device)) == o.device
                &&& source_model_opt(*final(source)) == o.source
                &&& events_model(final(events)@) == events_model(old(events)@) + o.events
            }),
    {
        let ghost pre_events = events@;
        match r {
            Ok((desc, buf)) => {
                let corrected = match device {
                    DeviceSlot::Working(d) => d.correct_device_format(&desc, buf),
                    DeviceSlot::Broken(d) => d.correct_device_format(&desc, buf),
                    DeviceSlot::Missing => Err(DeviceException::SilentException),
                };
                match corrected {
                    Ok(_) => {
                        // promote a broken session back to working
                        let mut taken = DeviceSlot::Missing;
                        core::mem::swap(device, &mut taken);
                        let dev = match taken {
                            DeviceSlot::Working(d) => d,
                            DeviceSlot::Broken(d) => d,
                            DeviceSlot::Missing => {
                                proof {
                                    assert(false);
                                }
                                unreached()
                            },
                        };
                        let rate = dev.get_sample_rate();
                        *device = DeviceSlot::Working(dev);
                        self.finish_rate_sync(source, rate, aux, events);
                    },
                    Err(e) => {
                        *device = DeviceSlot::Missing;
                        events.push(PlayerEvent::DeviceError(e));
                        proof {
                            assert(events_model(events@) =~= events_model(pre_events) + seq![
                                EventModel::DeviceError(DeviceException::UnsupportedDeviceFormat),
                            ]);
                        }
                    },
                }
            },
            Err(e) => {
                *device = DeviceSlot::Missing;
                events.push(PlayerEvent::DeviceError(e));
                proof {
                    assert(events_model(events@) =~= events_model(pre_events) + seq![
                        EventModel::DeviceError(e),
                    ]);
                }
            },
        }
    }

    /// The deferred phases after a successful device rebuild: source
    /// re-sync, the possible source discard with its announcement, the
    /// possible timeline re-anchor with its announcement.
    fn finish_rate_sync(
        &mut self,
        source: &mut Option<SourceScheduler>,
        rate: u32,
        aux: CommandAux,
        events: &mut Vec<PlayerEvent>,
    )
        requires
            old(self).wf(),
            source_wf_opt(*old(source)),
            44100 <= rate <= 192000,
            (aux.restore_seek is Some <==> (source_model_opt(*old(source)) matches Some(s)
                && s.trimmed)),
            (aux.new_delay is Some <==> (*old(source)) is Some),
        ensures
            final(self).wf(),
            source_wf_opt(*final(source)),
            ({
                let sync = rate_sync(
                    source_model_opt(*old(source)),
                    rate as int,
                    aux_nd(aux.new_delay),
                    aux.restore_seek,
                );
                let sm2 = if sync.failed is Some {
                    None::<SourceModel>
                } else {
                    sync.source
                };
                let ev_err: Seq<EventModel> = match sync.failed {
                    Some(e) => seq![EventModel::SourceError(e, old(self).model().identifier)],
                    None => Seq::empty(),
                };
                &&& source_model_opt(*final(source)) == sm2
                &&& match sync.anchor {
                    Some(a) => {
                        &&& final(self).model() == (PlayerModel {
                            anchor_millis: a,
                            progress_millis: a,
                            ..old(self).model()
                        })
                        &&& events_model(final(events)@) == events_model(old(events)@) + ev_err
                            + seq![EventModel::Progress(event_second(a))]
                    },
                    None => {
                        &&& final(self).model() == old(self).model()
                        &&& events_model(final(events)@) == events_model(old(events)@) + ev_err
                    },
                }
            }),
    {
        let ghost pre_events = events@;
        let (anchor, failed) = sync_source(source, rate, aux.new_delay, aux.restore_seek);
        match failed {
            Some(e) => {
                *source = None;
                events.push(PlayerEvent::SourceError(e, clone_id(&self.identifier)));
            },
            None => {},
        }
        match anchor {
            Some(a) => {
                self.timeline_anchor_millis = a;
                self.progress_millis = a;
                events.push(PlayerEvent::Progress(event_second_exec(a)));
            },
            None => {},
        }
        proof {
            let sync = rate_sync(
                source_model_opt(*old(source)),
                rate as int,
                aux_nd(aux.new_delay),
                aux.restore_seek,
            );
            let ev_err: Seq<EventModel> = match sync.failed {
                Some(e) => seq![EventModel::SourceError(e, old(self).model().identifier)],
                None => Seq::<EventModel>::empty(),
            };
            match sync.anchor {
                Some(a) => {
                    assert(self.model() =~= PlayerModel {
                        anchor_millis: a,
                        progress_millis: a,
                        ..old(self).model()
                    });
                    assert(events_model(events@) =~= events_model(pre_events) + ev_err + seq![
                        EventModel::Progress(event_second(a)),
                    ]);
                },
                None => {
                    assert(self.model() =~= old(self).model());
                    assert(events_model(events@) =~= events_model(pre_events) + ev_err);
                },
            }
        }
    }

    /// Pauses a working device while nothing is being played.
    pub fn tick_idle_pause(&self, device: &mut DeviceSlot, source: &Option<SourceScheduler>)
        requires
            slot_wf(*old(device)),
        ensures
            slot_wf(*final(device)),
            ({
                let dm = slot_model(*old(device));
                if !(self.model().playing && (*source) is Some) {
                    match dm {
                        DeviceSlotModel::Working(d) => slot_model(*final(device))
                            == DeviceSlotModel::Working(DeviceModel { started: false, ..d }),
                        _ => slot_model(*final(device)) == dm,
                    }
                } else {
                    slot_model(*final(device)) == dm
                }
            }),
    {
        if !(self.is_playing && source.is_some()) {
            match device {
                DeviceSlot::Working(d) => {
                    d.pause();
                },
                _ => {},
            }
        }
    }

    /// Whether a render tick runs: playing, with a working device and an
    /// open source.
    pub fn tick_should_render(&self, device: &DeviceSlot, source: &Option<SourceScheduler>) -> (b:
        bool)
        ensures
            b == (self.model().playing && slot_model(*device) is Working && (*source) is Some),
    {
        self.is_playing && (match device {
            DeviceSlot::Working(_) => true,
            _ => false,
        }) && source.is_some()
    }

    /// Whether the next drain of the command backlog blocks: only while no
    /// started device is rendering.
    pub fn drain_should_wait(&self, device: &DeviceSlot) -> (b: bool)
        ensures
            b == !(slot_model(*device) matches DeviceSlotModel::Working(d) && d.started),
    {
        match device {
            DeviceSlot::Working(d) => !d.get_has_started(),
            _ => true,
        }
    }

    /// Demotes a failing device to "broken but retained": its buffer is
    /// reset and its configuration remembered, awaiting a correction
    /// command; the failure is announced.
    pub fn tick_device_failed(&self, device: &mut DeviceSlot, error: DeviceException) -> (ev: Vec<
        PlayerEvent,
    >)
        requires
            slot_wf(*old(device)),
        ensures
            slot_wf(*final(device)),
            ({
                let dm = slot_model(*old(device));
                &&& match dm {
                    DeviceSlotModel::Working(d) => slot_model(*final(device))
                        == DeviceSlotModel::Broken(
                        DeviceModel { started: false, finished: false, ..d },
                    ),
                    _ => slot_model(*final(device)) == dm,
                }
                &&& events_model(ev@) == seq![EventModel::DeviceError(error)]
            }),
    {
        let is_working = match device {
            DeviceSlot::Working(_) => true,
            _ => false,
        };
        if is_working {
            let mut taken = DeviceSlot::Missing;
            core::mem::swap(device, &mut taken);
            match taken {
                DeviceSlot::Working(mut d) => {
                    d.reset_buffer();
                    *device = DeviceSlot::Broken(d);
                },
                _ => {},
            }
        }
        let mut ev: Vec<PlayerEvent> = Vec::new();
        ev.push(PlayerEvent::DeviceError(error));
        proof {
            assert(events_model(ev@) =~= seq![EventModel::DeviceError(error)]);
        }
        ev
    }

    /// Discards a source that failed mid-decode and announces the failure
    /// with the current track's identifier.
    pub fn tick_source_failed(&self, source: &mut Option<SourceScheduler>) -> (ev: Vec<
        PlayerEvent,
    >)
        ensures
            (*final(source)) is None,
            events_model(ev@) == seq![
                EventModel::SourceError(
                    SourceException::IncorrectFile,
                    self.model().identifier,
                ),
            ],
    {
        *source = None;
        let mut ev: Vec<PlayerEvent> = Vec::new();
        ev.push(
            PlayerEvent::SourceError(SourceException::IncorrectFile, clone_id(&self.identifier)),
        );
        proof {
            assert(events_model(ev@) =~= seq![
                EventModel::SourceError(SourceException::IncorrectFile, self.model().identifier),
            ]);
        }
        ev
    }

    /// After a render call: recomputes progress — the full duration when
    /// the terminal chunk finished, else the timeline anchor plus the
    /// device clock offset — and emits a progress event, plus one finish
    /// event when the stream completed. A clock failure keeps the previous
    /// progress and asks the caller to demote the device.
    pub fn tick_progress(
        &mut self,
        source: &Option<SourceScheduler>,
        finished: bool,
        offset_millis: Result<u64, DeviceException>,
    ) -> (out: (Vec<PlayerEvent>, bool))
        requires
            old(self).wf(),
            finished ==> (*source) is Some,
            (offset_millis matches Ok(o) ==> old(self).model().anchor_millis + o
                <= u64::MAX as int),
        ensures
            final(self).wf(),
            ({
                let (sp2, evs, demote) = tick_progress_outcome(
                    old(self).model(),
                    source_model_opt(*source),
                    finished,
                    offset_millis,
                );
                &&& final(self).model() == sp2
                &&& events_model(out.0@) == evs
                &&& out.1 == demote
            }),
    {
        let mut demote = false;
        if finished {
            let duration = match source {
                Some(s) => s.get_duration(),
                None => 0,
            };
            self.progress_millis = (duration as u64) * 1000;
        } else {
            match offset_millis {
                Ok(o) => {
                    self.progress_millis = self.timeline_anchor_millis + o;
                },
                Err(_) => {
                    demote = true;
                },
            }
        }
        let mut ev: Vec<PlayerEvent> = Vec::new();
        ev.push(PlayerEvent::Progress(event_second_exec(self.progress_millis)));
        if finished {
            ev.push(PlayerEvent::Finish);
        }
        proof {
            let (sp2, evs, dem) = tick_progress_outcome(
                old(self).model(),
                source_model_opt(*source),
                finished,
                offset_millis,
            );
            assert(self.model() =~= sp2);
            assert(events_model(ev@) =~= evs);
        }
        (ev, demote)
    }
}

/// The progress phase of one render tick, as a function of the session,
/// the source, whether the terminal chunk completed, and the device clock
/// reading.
pub open spec fn tick_progress_outcome(
    sp: PlayerModel,
    sm: Option<SourceModel>,
    finished: bool,
    offset_millis: Result<u64, DeviceException>,
) -> (PlayerModel, Seq<EventModel>, bool) {
    if finished {
        let dur_ms = source_duration_or_zero(sm) * 1000;
        (
            PlayerModel { progress_millis: dur_ms, ..sp },
            seq![EventModel::Progress(event_second(dur_ms)), EventModel::Finish],
            false,
        )
    } else {
        match offset_millis {
            Ok(o) => {
                let p = sp.anchor_millis + o;
                (
                    PlayerModel { progress_millis: p, ..sp },
                    seq![EventModel::Progress(event_second(p))],
                    false,
                )
            },
            Err(_) => (sp, seq![EventModel::Progress(event_second(sp.progress_millis))], true),
        }
    }
}

// ------------------------------------------------------------------
// Laws of the orchestration.
// ------------------------------------------------------------------

/// Round-trip law: seeking to second `target` and immediately reading the
/// position yields a progress inside `[target, target + 1)` seconds —
/// reported as exactly `target` — whenever the container's achieved
/// position lands inside the requested second.
pub proof fn lemma_seek_round_trip(
    sp: PlayerModel,
    dm: DeviceSlotModel,
    sm: SourceModel,
    target: int,
    ts: u64,
    nd: int,
)
    requires
        0 <= target <= u32::MAX as int,
        target * 1000 <= achieved_anchor_ms(sm, ts as int) < target * 1000 + 1000,
    ensures
        ({
            let o = seek_outcome(sp, dm, Some(sm), target, Some(Ok(ts)), nd);
            &&& target * 1000 <= o.session.progress_millis < (target + 1) * 1000
            &&& o.session.progress_millis / 1000 == target
            &&& o.events == seq![EventModel::Progress(target)]
        }),
{
    let a = achieved_anchor_ms(sm, ts as int);
    vstd::arithmetic::div_mod::lemma_fundamental_div_mod_converse(
        a,
        1000,
        target,
        a - target * 1000,
    );
    assert(a / 1000 == target);
    assert(event_second(a) == target);
    let o = seek_outcome(sp, dm, Some(sm), target, Some(Ok(ts)), nd);
    assert(o.events =~= seq![EventModel::Progress(target)]);
}

/// End-of-stream law: once the source delivers the terminal chunk (fewer
/// frames than requested, but some), the render plan for that chunk
/// drains the device — and the device reports the stream finished only
/// after the drain completed — and the finishing tick sets progress to
/// the track's declared duration, announced before the single finish
/// event.
pub proof fn lemma_end_of_stream_finish(
    sp: PlayerModel,
    sm: SourceModel,
    smp: SourceModel,
    v: Vec<crate::source::StereoFrame>,
    offset_millis: Result<u64, DeviceException>,
)
    requires
        sm.delay >= 0,
        next_step_rel(
            sm,
            smp,
            crate::source::SourceStep::Stream(Ok(Some(crate::source::SourceStream::Break(v)))),
        ),
    ensures
        crate::device::drain_required(Some(crate::source::SourceStream::Break(v))),
        0 < v@.len() < crate::source::requested_count(sm),
        smp.duration == sm.duration,
        ({
            let (sp2, evs, demote) = tick_progress_outcome(sp, Some(smp), true, offset_millis);
            &&& sp2.progress_millis == smp.duration * 1000
            &&& evs == seq![
                EventModel::Progress(event_second(smp.duration * 1000)),
                EventModel::Finish,
            ]
            &&& !demote
        }),
{
    let k = crate::source::requested_count(sm);
    assert(sm.buffered.len() < k);
    assert(sm.buffered.len() > 0);
    assert(crate::source::delivery_rel(
        sm,
        smp,
        Ok(Some(crate::source::SourceStream::Break(v))),
        sm.buffered.len() as int,
        false,
    ));
    assert(crate::source::delivery_ok(sm, sm.buffered.len() as int));
    if sm.trimmed {
        assert(v@ == sm.buffered.subrange(0, sm.buffered.len() as int));
    } else {
        assert(v@ == sm.buffered.subrange(sm.delay, sm.buffered.len() as int));
    }
}

/// Hot-swap law: a successful device-format correction while a
/// delay-compensated track is loaded re-anchors the timeline to the
/// position the restoring seek achieved — never back to zero unless that
/// position was zero — keeps the source at the corrected device's rate,
/// and announces that position's whole second.
pub proof fn lemma_format_correction_preserves_position(
    sp: PlayerModel,
    d: DeviceModel,
    sm: SourceModel,
    desc: MixFormatDescriptor,
    buf: u32,
    ts: u64,
    nd: int,
)
    requires
        sm.trimmed,
        negotiable(desc),
    ensures
        ({
            let o = format_correct_outcome(sp, d, Some(sm), Ok((desc, buf)), nd, Some(Ok(ts)));
            let a = achieved_anchor_ms(sm, ts as int);
            &&& o.session.progress_millis == a
            &&& o.session.anchor_millis == a
            &&& (o.device matches DeviceSlotModel::Working(d2) && d2.sample_rate
                == desc.samples_per_sec as int)
            &&& (o.source matches Some(s2) && s2.target_rate == desc.samples_per_sec as int
                && !s2.trimmed)
            &&& o.events == seq![EventModel::Progress(event_second(a))]
        }),
{
    let o = format_correct_outcome(sp, d, Some(sm), Ok((desc, buf)), nd, Some(Ok(ts)));
    let a = achieved_anchor_ms(sm, ts as int);
    assert(o.events =~= Seq::<EventModel>::empty() + seq![EventModel::Progress(event_second(a))]);
}

} // verus!

//! Transport commands, the volume value type, and the command-coalescing
//! scheduler that collapses a queued backlog into a minimal ordered action set.

use vstd::prelude::*;

verus! {

/// A selectable audio output: the system default endpoint, or a custom
/// endpoint matched by an identifier fragment.
#[derive(Debug, PartialEq, Eq)]
pub enum AudioEndpoint {
    Default,
    Custom(String),
}

/// A linear UI volume level, kept in thousandths of full scale and clamped to
/// `0 ..= 1000`. The perceptual amplitude curve applied at render time is a
/// fixed 60 dB log mapping computed outside this crate.
#[derive(Clone, Copy, PartialEq, Eq, Structural, Debug)]
pub struct Volume {
    level_per_mille: u32,
}

impl Volume {
    /// The stored level, in thousandths of full scale.
    pub closed spec fn level(self) -> int {
        self.level_per_mille as int
    }

    pub open spec fn valid(self) -> bool {
        0 <= self.level() <= 1000
    }

    /// Clamps the requested level into `0 ..= 1000`.
    pub fn new(value: u32) -> (v: Volume)
        ensures
            v.valid(),
            v.level() == if value > 1000 { 1000int } else { value as int },
    {
        Volume { level_per_mille: if value > 1000 { 1000 } else { value } }
    }

    pub fn get(&self) -> (r: u32)
        ensures
            r as int == self.level(),
    {
        self.level_per_mille
    }
}

/// One requested transition, produced by any caller and consumed exactly once
/// by the player loop.
#[derive(Debug, PartialEq, Eq)]
pub enum Command {
    SelectMode(AudioEndpoint, Volume),
    CorrectAudioEndpointDefault,
    CorrectDeviceFormat,
    ModifyVolume(Volume),
    SelectTrack(String, String),
    ClearTrack,
    Seek(u32),
    Play,
    Pause,
    Stop,
    Close,
}

/// The logical category a command belongs to for coalescing: per category at
/// most one intent survives a drained backlog.
pub enum CommandCategory {
    ModeSelection,
    EndpointCorrection,
    FormatCorrection,
    VolumeChange,
    TrackUpdate,
    ProgressUpdate,
    StateChange,
    StopRequest,
    CloseRequest,
}

pub open spec fn category(c: Command) -> CommandCategory {
    match c {
        Command::SelectMode(_, _) => CommandCategory::ModeSelection,
        Command::CorrectAudioEndpointDefault => CommandCategory::EndpointCorrection,
        Command::CorrectDeviceFormat => CommandCategory::FormatCorrection,
        Command::ModifyVolume(_) => CommandCategory::VolumeChange,
        Command::SelectTrack(_, _) => CommandCategory::TrackUpdate,
        Command::ClearTrack => CommandCategory::TrackUpdate,
        Command::Seek(_) => CommandCategory::ProgressUpdate,
        Command::Play => CommandCategory::StateChange,
        Command::Pause => CommandCategory::StateChange,
        Command::Stop => CommandCategory::StopRequest,
        Command::Close => CommandCategory::CloseRequest,
    }
}

/// Coarse pass over the backlog in arrival order. It stops at the first
/// `Close` (everything queued after it is discarded), keeps only the first
/// endpoint correction, drops corrections that an earlier mode selection or
/// (for format corrections) an earlier endpoint correction already covers,
/// and keeps everything else.
pub open spec fn coarse_pass(s: Seq<Command>, mode: bool, endpoint: bool, format: bool) -> Seq<
    Command,
>
    decreases s.len(),
{
    if s.len() == 0 {
        Seq::empty()
    } else {
        let c = s[0];
        let rest = s.skip(1);
        match c {
            Command::Close => seq![c],
            Command::SelectMode(_, _) => seq![c] + coarse_pass(rest, true, endpoint, format),
            Command::CorrectAudioEndpointDefault => if mode || endpoint {
                coarse_pass(rest, mode, endpoint, format)
            } else {
                seq![c] + coarse_pass(rest, mode, true, format)
            },
            Command::CorrectDeviceFormat => if mode || endpoint || format {
                coarse_pass(rest, mode, endpoint, format)
            } else {
                seq![c] + coarse_pass(rest, mode, endpoint, true)
            },
            _ => seq![c] + coarse_pass(rest, mode, endpoint, format),
        }
    }
}

/// Which categories already have a surviving representative while the fine
/// pass walks the batch from the newest command backwards.
#[derive(Clone, Copy)]
pub struct FineTags {
    pub mode: bool,
    pub endpoint: bool,
    pub volume: bool,
    pub track: bool,
    pub progress: bool,
    pub state: bool,
}

pub open spec fn no_tags() -> FineTags {
    FineTags {
        mode: false,
        endpoint: false,
        volume: false,
        track: false,
        progress: false,
        state: false,
    }
}

/// Tag update when the fine pass processes command `c` under tags `t`.
pub open spec fn fine_update(t: FineTags, c: Command) -> FineTags {
    match c {
        Command::SelectMode(_, _) => if t.mode {
            t
        } else {
            FineTags { mode: true, ..t }
        },
        Command::CorrectAudioEndpointDefault => if t.mode {
            t
        } else {
            FineTags { endpoint: true, ..t }
        },
        Command::CorrectDeviceFormat => t,
        Command::ModifyVolume(_) => if t.mode || t.volume {
            t
        } else {
            FineTags { volume: true, ..t }
        },
        Command::SelectTrack(_, _) => if t.track {
            t
        } else {
            FineTags { track: true, ..t }
        },
        Command::ClearTrack => if t.track {
            t
        } else {
            FineTags { track: true, ..t }
        },
        Command::Seek(_) => if t.progress {
            t
        } else {
            FineTags { progress: true, ..t }
        },
        Command::Play => if t.state {
            t
        } else {
            FineTags { state: true, ..t }
        },
        Command::Pause => if t.state {
            t
        } else {
            FineTags { state: true, ..t }
        },
        Command::Stop => FineTags { progress: true, state: true, ..t },
        Command::Close => t,
    }
}

/// What the fine pass keeps of command `c` under tags `t`, in output order.
/// A `Stop` whose categories are partly covered decomposes into the missing
/// parts: a pause and a seek to zero.
pub open spec fn fine_keep(t: FineTags, c: Command) -> Seq<Command> {
    match c {
        Command::SelectMode(_, _) => if t.mode {
            Seq::empty()
        } else {
            seq![c]
        },
        Command::CorrectAudioEndpointDefault => if t.mode {
            Seq::empty()
        } else {
            seq![c]
        },
        Command::CorrectDeviceFormat => if t.mode || t.endpoint {
            Seq::empty()
        } else {
            seq![c]
        },
        Command::ModifyVolume(_) => if t.mode || t.volume {
            Seq::empty()
        } else {
            seq![c]
        },
        Command::SelectTrack(_, _) => if t.track {
            Seq::empty()
        } else {
            seq![c]
        },
        Command::ClearTrack => if t.track {
            Seq::empty()
        } else {
            seq![c]
        },
        Command::Seek(_) => if t.progress {
            Seq::empty()
        } else {
            seq![c]
        },
        Command::Play => if t.state {
            Seq::empty()
        } else {
            seq![c]
        },
        Command::Pause => if t.state {
            Seq::empty()
        } else {
            seq![c]
        },
        Command::Stop => if !t.progress && !t.state {
            seq![c]
        } else {
            (if t.state {
                Seq::<Command>::empty()
            } else {
                seq![Command::Pause]
            }) + (if t.progress {
                Seq::<Command>::empty()
            } else {
                seq![Command::Seek(0)]
            })
        },
        Command::Close => seq![c],
    }
}

/// Fine pass over the coarse output `r`, walking from the newest command
/// backwards so that the latest intent of each category wins; the survivors
/// are returned in their original arrival order.
pub open spec fn fine_pass(r: Seq<Command>, t: FineTags) -> Seq<Command>
    decreases r.len(),
{
    if r.len() == 0 {
        Seq::empty()
    } else {
        let c = r.last();
        fine_pass(r.drop_last(), fine_update(t, c)) + fine_keep(t, c)
    }
}

/// The complete coalescing of a drained backlog: coarse pass in arrival
/// order, then fine pass from the newest survivor backwards.
pub open spec fn coalesce_spec(batch: Seq<Command>) -> Seq<Command> {
    fine_pass(coarse_pass(batch, false, false, false), no_tags())
}

/// Owns the queued command backlog and collapses it, on drain, into the
/// smallest ordered action set that preserves the latest intent per category.
pub struct CommandScheduler {
    backlog: Vec<Command>,
}

impl CommandScheduler {
    /// The commands currently queued, in arrival order.
    pub closed spec fn queued(self) -> Seq<Command> {
        self.backlog@
    }

    pub fn new() -> (s: Self)
        ensures
            s.queued() == Seq::<Command>::empty(),
    {
        CommandScheduler { backlog: Vec::new() }
    }

    pub fn enqueue(&mut self, c: Command)
        ensures
            final(self).queued() == old(self).queued().push(c),
    {
        self.backlog.push(c);
    }

    /// Drains the backlog and returns the coalesced action set, in order.
    pub fn backlog_into_iter(&mut self) -> (out: Vec<Command>)
        ensures
            out@ == coalesce_spec(old(self).queued()),
            final(self).queued() == Seq::<Command>::empty(),
    {
        let mut batch: Vec<Command> = Vec::new();
        core::mem::swap(&mut batch, &mut self.backlog);
        coalesce_backlog(batch)
    }
}

/// One fine-pass step: records what command `c` keeps (in reverse output
/// order) and updates the category tags.
fn fine_step(c: Command, tags: &mut FineTags, rev: &mut Vec<Command>)
    ensures
        *final(tags) == fine_update(*old(tags), c),
        final(rev)@ == old(rev)@ + fine_keep(*old(tags), c).reverse(),
{
    let ghost pre_tags = *tags;
    let ghost pre_rev = rev@;
    match c {
        Command::SelectMode(e, v) => {
            if !tags.mode {
                rev.push(Command::SelectMode(e, v));
                tags.mode = true;
            }
        },
        Command::CorrectAudioEndpointDefault => {
            if !tags.mode {
                rev.push(Command::CorrectAudioEndpointDefault);
                tags.endpoint = true;
            }
        },
        Command::CorrectDeviceFormat => {
            if !(tags.mode || tags.endpoint) {
                rev.push(Command::CorrectDeviceFormat);
            }
        },
        Command::ModifyVolume(v) => {
            if !(tags.mode || tags.volume) {
                rev.push(Command::ModifyVolume(v));
                tags.volume = true;
            }
        },
        Command::SelectTrack(p, i) => {
            if !tags.track {
                rev.push(Command::SelectTrack(p, i));
                tags.track = true;
            }
        },
        Command::ClearTrack => {
            if !tags.track {
                rev.push(Command::ClearTrack);
                tags.track = true;
            }
        },
        Command::Seek(s) => {
            if !tags.progress {
                rev.push(Command::Seek(s));
                tags.progress = true;
            }
        },
        Command::Play => {
            if !tags.state {
                rev.push(Command::Play);
                tags.state = true;
            }
        },
        Command::Pause => {
            if !tags.state {
                rev.push(Command::Pause);
                tags.state = true;
            }
        },
        Command::Stop => {
            if !tags.progress && !tags.state {
                rev.push(Command::Stop);
                tags.progress = true;
                tags.state = true;
            } else {
                if !tags.progress {
                    rev.push(Command::Seek(0));
                    tags.progress = true;
                }
                if !tags.state {
                    rev.push(Command::Pause);
                    tags.state = true;
                }
            }
        },
        Command::Close => {
            rev.push(Command::Close);
        },
    }
    proof {
        assert(*tags == fine_update(pre_tags, c));
        assert(rev@ =~= pre_rev + fine_keep(pre_tags, c).reverse());
    }
}

/// Coalesces one drained batch of commands.
pub fn coalesce_backlog(batch: Vec<Command>) -> (out: Vec<Command>)
    ensures
        out@ == coalesce_spec(batch@),
{
    let ghost batch0 = batch@;
    let mut batch = batch;
    let mut coarse_out: Vec<Command> = Vec::new();
    let mut mode = false;
    let mut endpoint = false;
    let mut format = false;
    let mut saw_close = false;
    while batch.len() > 0 && !saw_close
        invariant
            !saw_close ==> coarse_pass(batch0, false, false, false) == coarse_out@ + coarse_pass(
                batch@,
                mode,
                endpoint,
                format,
            ),
            saw_close ==> coarse_pass(batch0, false, false, false) == coarse_out@,
        decreases batch.len(),
    {
        let ghost pre = batch@;
        let c = batch.remove(0);
        proof {
            assert(batch@ =~= pre.skip(1));
        }
        match c {
            Command::Close => {
                coarse_out.push(Command::Close);
                saw_close = true;
                proof {
                    assert(coarse_pass(pre, mode, endpoint, format) =~= seq![
                        Command::Close,
                    ]);
                }
            },
            Command::SelectMode(e, v) => {
                coarse_out.push(Command::SelectMode(e, v));
                mode = true;
            },
            Command::CorrectAudioEndpointDefault => {
                if !(mode || endpoint) {
                    coarse_out.push(Command::CorrectAudioEndpointDefault);
                    endpoint = true;
                }
            },
            Command::CorrectDeviceFormat => {
                if !(mode || endpoint || format) {
                    coarse_out.push(Command::CorrectDeviceFormat);
                    format = true;
                }
            },
            Command::ModifyVolume(v) => {
                coarse_out.push(Command::ModifyVolume(v));
            },
            Command::SelectTrack(p, i) => {
                coarse_out.push(Command::SelectTrack(p, i));
            },
            Command::ClearTrack => {
                coarse_out.push(Command::ClearTrack);
            },
            Command::Seek(s) => {
                coarse_out.push(Command::Seek(s));
            },
            Command::Play => {
                coarse_out.push(Command::Play);
            },
            Command::Pause => {
                coarse_out.push(Command::Pause);
            },
            Command::Stop => {
                coarse_out.push(Command::Stop);
            },
        }
    }
    proof {
        assert(coarse_pass(batch0, false, false, false) == coarse_out@) by {
            if !saw_close {
                assert(coarse_pass(batch@, mode, endpoint, format) =~= Seq::<Command>::empty());
                assert(coarse_out@ + Seq::<Command>::empty() =~= coarse_out@);
            }
        }
    }
    let ghost coarse_full = coarse_out@;
    let mut tags = FineTags {
        mode: false,
        endpoint: false,
        volume: false,
        track: false,
        progress: false,
        state: false,
    };
    proof {
        assert(tags == no_tags());
    }
    let mut rev: Vec<Command> = Vec::new();
    while coarse_out.len() > 0
        invariant
            fine_pass(coarse_out@, tags) + rev@.reverse() == fine_pass(coarse_full, no_tags()),
        decreases coarse_out.len(),
    {
        let ghost pre = coarse_out@;
        let ghost pre_tags = tags;
        let ghost pre_rev = rev@;
        let c = coarse_out.pop().unwrap();
        proof {
            assert(c == pre.last());
            assert(coarse_out@ =~= pre.drop_last());
        }
        fine_step(c, &mut tags, &mut rev);
        proof {
            assert(fine_pass(pre, pre_tags) == fine_pass(coarse_out@, tags) + fine_keep(
                pre_tags,
                c,
            ));
            assert(rev@.reverse() =~= fine_keep(pre_tags, c) + pre_rev.reverse());
            assert((fine_pass(coarse_out@, tags) + fine_keep(pre_tags, c)) + pre_rev.reverse()
                =~= fine_pass(coarse_out@, tags) + (fine_keep(pre_tags, c) + pre_rev.reverse()));
        }
    }
    proof {
        assert(fine_pass(coarse_out@, tags) =~= Seq::<Command>::empty());
        assert(rev@.reverse() =~= fine_pass(coarse_full, no_tags()));
    }
    let mut out: Vec<Command> = Vec::new();
    while rev.len() > 0
        invariant
            out@ + rev@.reverse() == fine_pass(coarse_full, no_tags()),
        decreases rev.len(),
    {
        let ghost pre_rev = rev@;
        let ghost pre_out = out@;
        let c = rev.pop().unwrap();
        out.push(c);
        proof {
            assert(rev@ =~= pre_rev.drop_last());
            assert(out@ =~= pre_out.push(pre_rev.last()));
            assert(out@ + rev@.reverse() =~= pre_out + pre_rev.reverse());
        }
    }
    proof {
        assert(out@ + rev@.reverse() =~= out@);
    }
    out
}

// ------------------------------------------------------------------
// Laws of the coalescing passes.
// ------------------------------------------------------------------

pub open spec fn is_correction(c: Command) -> bool {
    c is CorrectAudioEndpointDefault || c is CorrectDeviceFormat
}

/// A command that represents the progress (seek) category, counting `Stop`,
/// which implies a seek to zero.
pub open spec fn is_progress_rep(c: Command) -> bool {
    c is Seek || c is Stop
}

/// A command that represents the play/pause category, counting `Stop`,
/// which implies a pause.
pub open spec fn is_state_rep(c: Command) -> bool {
    c is Play || c is Pause || c is Stop
}

pub open spec fn count_where(s: Seq<Command>, p: spec_fn(Command) -> bool) -> nat
    decreases s.len(),
{
    if s.len() == 0 {
        0
    } else {
        count_where(s.drop_last(), p) + (if p(s.last()) {
            1nat
        } else {
            0nat
        })
    }
}

pub open spec fn progress_pred() -> spec_fn(Command) -> bool {
    |c: Command| is_progress_rep(c)
}

pub open spec fn state_pred() -> spec_fn(Command) -> bool {
    |c: Command| is_state_rep(c)
}

proof fn lemma_count_where_add(a: Seq<Command>, b: Seq<Command>, p: spec_fn(Command) -> bool)
    ensures
        count_where(a + b, p) == count_where(a, p) + count_where(b, p),
    decreases b.len(),
{
    if b.len() == 0 {
        assert(a + b =~= a);
    } else {
        assert((a + b).drop_last() =~= a + b.drop_last());
        assert((a + b).last() == b.last());
        lemma_count_where_add(a, b.drop_last(), p);
    }
}

proof fn lemma_count_where_singleton(c: Command, p: spec_fn(Command) -> bool)
    ensures
        count_where(seq![c], p) == if p(c) {
            1nat
        } else {
            0nat
        },
{
    assert(seq![c].len() == 1);
    assert(seq![c].last() == c);
    assert(seq![c].drop_last() =~= Seq::<Command>::empty());
    assert(count_where(Seq::<Command>::empty(), p) == 0);
}

proof fn lemma_fine_pass_singleton(c: Command, t: FineTags)
    ensures
        fine_pass(seq![c], t) == fine_keep(t, c),
{
    assert(seq![c].len() == 1);
    assert(seq![c].last() == c);
    assert(seq![c].drop_last() =~= Seq::<Command>::empty());
    assert(fine_pass(Seq::<Command>::empty(), fine_update(t, c)) =~= Seq::<Command>::empty());
    assert(fine_pass(seq![c], t) =~= Seq::<Command>::empty() + fine_keep(t, c));
    assert(Seq::<Command>::empty() + fine_keep(t, c) =~= fine_keep(t, c));
}

proof fn lemma_count_where_pos(s: Seq<Command>, p: spec_fn(Command) -> bool, i: int)
    requires
        0 <= i < s.len(),
        p(s[i]),
    ensures
        count_where(s, p) >= 1,
    decreases s.len(),
{
    if i == s.len() - 1 {
    } else {
        assert(s.drop_last()[i] == s[i]);
        lemma_count_where_pos(s.drop_last(), p, i);
    }
}

proof fn lemma_count_where_two(s: Seq<Command>, p: spec_fn(Command) -> bool, i: int, j: int)
    requires
        0 <= i < j < s.len(),
        p(s[i]),
        p(s[j]),
    ensures
        count_where(s, p) >= 2,
    decreases s.len(),
{
    if j == s.len() - 1 {
        assert(s.drop_last()[i] == s[i]);
        lemma_count_where_pos(s.drop_last(), p, i);
    } else {
        assert(s.drop_last()[i] == s[i]);
        assert(s.drop_last()[j] == s[j]);
        lemma_count_where_two(s.drop_last(), p, i, j);
    }
}

/// Commands whose coarse handling is a plain keep, whatever the flags.
pub open spec fn is_plain(c: Command) -> bool {
    ||| c is SelectMode
    ||| c is ModifyVolume
    ||| c is SelectTrack
    ||| c is ClearTrack
    ||| c is Seek
    ||| c is Play
    ||| c is Pause
    ||| c is Stop
}

proof fn lemma_coarse_keeps_all(s: Seq<Command>, m: bool, e: bool, f: bool)
    requires
        forall|i: int| 0 <= i < s.len() ==> is_plain(#[trigger] s[i]),
    ensures
        coarse_pass(s, m, e, f) == s,
    decreases s.len(),
{
    if s.len() == 0 {
        assert(coarse_pass(s, m, e, f) =~= s);
    } else {
        let c = s[0];
        let rest = s.skip(1);
        assert forall|i: int| 0 <= i < rest.len() implies is_plain(#[trigger] rest[i]) by {
            assert(rest[i] == s[i + 1]);
        }
        if c is SelectMode {
            lemma_coarse_keeps_all(rest, true, e, f);
        } else {
            lemma_coarse_keeps_all(rest, m, e, f);
        }
        assert(coarse_pass(s, m, e, f) =~= s);
    }
}

proof fn lemma_coarse_all_endpoint(s: Seq<Command>, m: bool, e: bool, f: bool)
    requires
        forall|i: int| 0 <= i < s.len() ==> (#[trigger] s[i]) is CorrectAudioEndpointDefault,
    ensures
        (m || e) ==> coarse_pass(s, m, e, f) == Seq::<Command>::empty(),
        !(m || e) && s.len() > 0 ==> coarse_pass(s, m, e, f) == seq![
            Command::CorrectAudioEndpointDefault,
        ],
    decreases s.len(),
{
    if s.len() == 0 {
    } else {
        let rest = s.skip(1);
        assert forall|i: int|
            0 <= i < rest.len() implies (#[trigger] rest[i]) is CorrectAudioEndpointDefault by {
            assert(rest[i] == s[i + 1]);
        }
        lemma_coarse_all_endpoint(rest, m, e, f);
        lemma_coarse_all_endpoint(rest, m, true, f);
        if !(m || e) {
            assert(coarse_pass(s, m, e, f) =~= seq![Command::CorrectAudioEndpointDefault]);
        } else {
            assert(coarse_pass(s, m, e, f) =~= Seq::<Command>::empty());
        }
    }
}

proof fn lemma_coarse_all_format(s: Seq<Command>, m: bool, e: bool, f: bool)
    requires
        forall|i: int| 0 <= i < s.len() ==> (#[trigger] s[i]) is CorrectDeviceFormat,
    ensures
        (m || e || f) ==> coarse_pass(s, m, e, f) == Seq::<Command>::empty(),
        !(m || e || f) && s.len() > 0 ==> coarse_pass(s, m, e, f) == seq![
            Command::CorrectDeviceFormat,
        ],
    decreases s.len(),
{
    if s.len() == 0 {
    } else {
        let rest = s.skip(1);
        assert forall|i: int|
            0 <= i < rest.len() implies (#[trigger] rest[i]) is CorrectDeviceFormat by {
            assert(rest[i] == s[i + 1]);
        }
        lemma_coarse_all_format(rest, m, e, f);
        lemma_coarse_all_format(rest, m, e, true);
        if !(m || e || f) {
            assert(coarse_pass(s, m, e, f) =~= seq![Command::CorrectDeviceFormat]);
        } else {
            assert(coarse_pass(s, m, e, f) =~= Seq::<Command>::empty());
        }
    }
}

/// Whether the fine pass is already holding a survivor that covers category
/// `cat`, so that a further command of that category contributes nothing.
pub open spec fn cat_covered(cat: CommandCategory, t: FineTags) -> bool {
    match cat {
        CommandCategory::ModeSelection => t.mode,
        CommandCategory::EndpointCorrection => t.mode,
        CommandCategory::FormatCorrection => t.mode || t.endpoint,
        CommandCategory::VolumeChange => t.mode || t.volume,
        CommandCategory::TrackUpdate => t.track,
        CommandCategory::ProgressUpdate => t.progress,
        CommandCategory::StateChange => t.state,
        CommandCategory::StopRequest => t.progress && t.state,
        CommandCategory::CloseRequest => false,
    }
}

proof fn lemma_fine_covered(r: Seq<Command>, t: FineTags, cat: CommandCategory)
    requires
        forall|i: int| 0 <= i < r.len() ==> category(#[trigger] r[i]) == cat,
        cat_covered(cat, t),
        !(cat is CloseRequest),
    ensures
        fine_pass(r, t) == Seq::<Command>::empty(),
    decreases r.len(),
{
    if r.len() == 0 {
        assert(fine_pass(r, t) =~= Seq::<Command>::empty());
    } else {
        let c = r.last();
        let rest = r.drop_last();
        assert forall|i: int| 0 <= i < rest.len() implies category(#[trigger] rest[i]) == cat by {
            assert(rest[i] == r[i]);
        }
        lemma_fine_covered(rest, fine_update(t, c), cat);
        assert(fine_keep(t, c) =~= Seq::<Command>::empty());
        assert(fine_pass(r, t) =~= Seq::<Command>::empty());
    }
}

/// The fine-pass categories where keeping a command covers the category for
/// every older command of the same category.
pub open spec fn is_latest_wins_category(cat: CommandCategory) -> bool {
    ||| cat is ModeSelection
    ||| cat is VolumeChange
    ||| cat is TrackUpdate
    ||| cat is ProgressUpdate
    ||| cat is StateChange
    ||| cat is StopRequest
}

proof fn lemma_fine_latest(r: Seq<Command>, t: FineTags, cat: CommandCategory)
    requires
        forall|i: int| 0 <= i < r.len() ==> category(#[trigger] r[i]) == cat,
        is_latest_wins_category(cat),
        !cat_covered(cat, t),
        match cat {
            CommandCategory::VolumeChange => !t.mode && !t.volume,
            CommandCategory::StopRequest => !t.progress && !t.state,
            _ => true,
        },
        r.len() > 0,
    ensures
        fine_pass(r, t) == seq![r.last()],
{
    let c = r.last();
    let rest = r.drop_last();
    assert forall|i: int| 0 <= i < rest.len() implies category(#[trigger] rest[i]) == cat by {
        assert(rest[i] == r[i]);
    }
    assert(fine_keep(t, c) =~= seq![c]);
    assert(cat_covered(cat, fine_update(t, c)));
    lemma_fine_covered(rest, fine_update(t, c), cat);
    assert(fine_pass(r, t) =~= seq![c]);
}

/// Coalescing law: for a backlog made of commands of one category, exactly
/// one command survives, and it is the most recently issued one.
pub proof fn lemma_coalesce_latest_wins(batch: Seq<Command>, cat: CommandCategory)
    requires
        batch.len() > 0,
        forall|i: int| 0 <= i < batch.len() ==> category(#[trigger] batch[i]) == cat,
    ensures
        coalesce_spec(batch) == seq![batch.last()],
{
    let r = coarse_pass(batch, false, false, false);
    if is_latest_wins_category(cat) {
        assert forall|i: int| 0 <= i < batch.len() implies is_plain(#[trigger] batch[i]) by {
            assert(category(batch[i]) == cat);
        }
        lemma_coarse_keeps_all(batch, false, false, false);
        lemma_fine_latest(batch, no_tags(), cat);
    } else if cat is EndpointCorrection {
        assert forall|i: int|
            0 <= i < batch.len() implies (#[trigger] batch[i]) is CorrectAudioEndpointDefault by {
            assert(category(batch[i]) == cat);
        }
        lemma_coarse_all_endpoint(batch, false, false, false);
        assert(r =~= seq![Command::CorrectAudioEndpointDefault]);
        lemma_fine_pass_singleton(Command::CorrectAudioEndpointDefault, no_tags());
        assert(fine_pass(r, no_tags()) =~= seq![Command::CorrectAudioEndpointDefault]);
        assert(batch.last() == Command::CorrectAudioEndpointDefault);
        assert(coalesce_spec(batch) =~= seq![batch.last()]);
    } else if cat is FormatCorrection {
        assert forall|i: int|
            0 <= i < batch.len() implies (#[trigger] batch[i]) is CorrectDeviceFormat by {
            assert(category(batch[i]) == cat);
        }
        lemma_coarse_all_format(batch, false, false, false);
        assert(r =~= seq![Command::CorrectDeviceFormat]);
        lemma_fine_pass_singleton(Command::CorrectDeviceFormat, no_tags());
        assert(fine_pass(r, no_tags()) =~= seq![Command::CorrectDeviceFormat]);
        assert(batch.last() == Command::CorrectDeviceFormat);
        assert(coalesce_spec(batch) =~= seq![batch.last()]);
    } else {
        assert(cat is CloseRequest);
        assert(batch[0] is Close);
        assert(r =~= seq![Command::Close]);
        lemma_fine_pass_singleton(Command::Close, no_tags());
        assert(fine_pass(r, no_tags()) =~= seq![Command::Close]);
        assert(batch.last() == Command::Close);
        assert(coalesce_spec(batch) =~= seq![batch.last()]);
    }
}

/// In the coarse output, every correction stands before every mode
/// selection, corrections vanish once a mode was already seen, and mode
/// selections are never dropped.
proof fn lemma_coarse_correction_order(s: Seq<Command>, m: bool, e: bool, f: bool)
    requires
        forall|i: int| 0 <= i < s.len() ==> !((#[trigger] s[i]) is Close),
    ensures
        m ==> forall|i: int|
            0 <= i < coarse_pass(s, m, e, f).len() ==> !is_correction(
                #[trigger] coarse_pass(s, m, e, f)[i],
            ),
        forall|ci: int, mi: int|
            0 <= ci < coarse_pass(s, m, e, f).len() && 0 <= mi < coarse_pass(s, m, e, f).len()
                && is_correction(#[trigger] coarse_pass(s, m, e, f)[ci]) && (#[trigger] coarse_pass(
                s,
                m,
                e,
                f,
            )[mi]) is SelectMode ==> ci < mi,
        (exists|i: int| 0 <= i < s.len() && (#[trigger] s[i]) is SelectMode) ==> (exists|i: int|
            0 <= i < coarse_pass(s, m, e, f).len() && (#[trigger] coarse_pass(s, m, e, f)[i])
                is SelectMode),
    decreases s.len(),
{
    if s.len() == 0 {
    } else {
        let c = s[0];
        let rest = s.skip(1);
        assert forall|i: int| 0 <= i < rest.len() implies !((#[trigger] rest[i]) is Close) by {
            assert(rest[i] == s[i + 1]);
        }
        let out = coarse_pass(s, m, e, f);
        assert(!(c is Close));
        let kept = !((c is CorrectAudioEndpointDefault && (m || e)) || (c is CorrectDeviceFormat
            && (m || e || f)));
        let m2 = m || c is SelectMode;
        let e2 = e || (kept && c is CorrectAudioEndpointDefault);
        let f2 = f || (kept && c is CorrectDeviceFormat);
        lemma_coarse_correction_order(rest, m2, e2, f2);
        let tail = coarse_pass(rest, m2, e2, f2);
        if kept {
            assert(out =~= seq![c] + tail);
            assert(out[0] == c);
            assert forall|i: int| 1 <= i < out.len() implies out[i] == tail[i - 1] by {}
            if exists|i: int| 0 <= i < s.len() && (#[trigger] s[i]) is SelectMode {
                if c is SelectMode {
                    assert(out[0] is SelectMode);
                } else {
                    let wi = choose|i: int| 0 <= i < s.len() && (#[trigger] s[i]) is SelectMode;
                    assert(rest[wi - 1] == s[wi]);
                    let ti = choose|i: int|
                        0 <= i < tail.len() && (#[trigger] tail[i]) is SelectMode;
                    assert(out[ti + 1] is SelectMode);
                }
            }
        } else {
            assert(out =~= tail);
            if exists|i: int| 0 <= i < s.len() && (#[trigger] s[i]) is SelectMode {
                let wi = choose|i: int| 0 <= i < s.len() && (#[trigger] s[i]) is SelectMode;
                assert(wi != 0);
                assert(rest[wi - 1] == s[wi]);
            }
        }
    }
}

/// Once the fine pass holds a mode selection, or every correction in the
/// batch stands before some mode selection, no correction survives.
proof fn lemma_fine_mode_discards(r: Seq<Command>, t: FineTags)
    requires
        t.mode || ((exists|i: int| 0 <= i < r.len() && (#[trigger] r[i]) is SelectMode) && (
        forall|ci: int, mi: int|
            0 <= ci < r.len() && 0 <= mi < r.len() && is_correction(#[trigger] r[ci]) && (
            #[trigger] r[mi]) is SelectMode ==> ci < mi)),
    ensures
        forall|j: int|
            0 <= j < fine_pass(r, t).len() ==> !is_correction(#[trigger] fine_pass(r, t)[j]),
    decreases r.len(),
{
    if r.len() == 0 {
    } else {
        let c = r.last();
        let rest = r.drop_last();
        let t2 = fine_update(t, c);
        let keep = fine_keep(t, c);
        let tail = fine_pass(rest, t2);
        assert(fine_pass(r, t) == tail + keep);
        if t.mode {
            assert(t2.mode);
            lemma_fine_mode_discards(rest, t2);
            assert forall|j: int|
                0 <= j < keep.len() implies !is_correction(#[trigger] keep[j]) by {}
        } else {
            let mi = choose|i: int| 0 <= i < r.len() && (#[trigger] r[i]) is SelectMode;
            if c is SelectMode {
                assert(t2.mode);
                lemma_fine_mode_discards(rest, t2);
                assert forall|j: int|
                    0 <= j < keep.len() implies !is_correction(#[trigger] keep[j]) by {}
            } else {
                assert(!is_correction(c)) by {
                    if is_correction(c) {
                        assert(r.len() - 1 < mi);
                    }
                }
                assert(mi < r.len() - 1);
                assert(rest[mi] == r[mi]);
                assert forall|ci: int, mj: int|
                    0 <= ci < rest.len() && 0 <= mj < rest.len() && is_correction(
                        #[trigger] rest[ci],
                    ) && (#[trigger] rest[mj]) is SelectMode implies ci < mj by {
                    assert(rest[ci] == r[ci]);
                    assert(rest[mj] == r[mj]);
                }
                lemma_fine_mode_discards(rest, t2);
                assert forall|j: int|
                    0 <= j < keep.len() implies !is_correction(#[trigger] keep[j]) by {}
            }
        }
    }
}

/// Priority law: a mode selection queued anywhere in a batch (that holds no
/// close) discards every endpoint or device-format correction in that batch.
pub proof fn lemma_mode_selection_discards_corrections(batch: Seq<Command>)
    requires
        forall|i: int| 0 <= i < batch.len() ==> !((#[trigger] batch[i]) is Close),
        exists|i: int| 0 <= i < batch.len() && (#[trigger] batch[i]) is SelectMode,
    ensures
        forall|j: int|
            0 <= j < coalesce_spec(batch).len() ==> !is_correction(
                #[trigger] coalesce_spec(batch)[j],
            ),
{
    lemma_coarse_correction_order(batch, false, false, false);
    lemma_fine_mode_discards(coarse_pass(batch, false, false, false), no_tags());
}

/// The fine pass leaves exactly one representative of the progress (seek)
/// category when the batch holds one and the category is not yet covered.
proof fn lemma_fine_progress_count(r: Seq<Command>, t: FineTags)
    ensures
        count_where(fine_pass(r, t), progress_pred()) == if t.progress {
            0nat
        } else if exists|i: int| 0 <= i < r.len() && is_progress_rep(#[trigger] r[i]) {
            1nat
        } else {
            0nat
        },
    decreases r.len(),
{
    let p = progress_pred();
    if r.len() == 0 {
        assert(count_where(fine_pass(r, t), p) == 0);
    } else {
        let c = r.last();
        let rest = r.drop_last();
        let t2 = fine_update(t, c);
        let keep = fine_keep(t, c);
        let tail = fine_pass(rest, t2);
        assert(fine_pass(r, t) == tail + keep);
        lemma_fine_progress_count(rest, t2);
        lemma_count_where_add(tail, keep, p);
        if is_progress_rep(c) {
            assert(exists|i: int| 0 <= i < r.len() && is_progress_rep(#[trigger] r[i])) by {
                assert(is_progress_rep(r[r.len() - 1]));
            }
            assert(t2.progress);
            if t.progress {
                if c is Stop {
                    if t.state {
                        assert(keep =~= Seq::<Command>::empty() + Seq::<Command>::empty());
                        assert(count_where(keep, p) == 0) by {
                            lemma_count_where_add(Seq::empty(), Seq::empty(), p);
                        }
                    } else {
                        assert(keep =~= seq![Command::Pause] + Seq::<Command>::empty());
                        lemma_count_where_add(seq![Command::Pause], Seq::empty(), p);
                        lemma_count_where_singleton(Command::Pause, p);
                    }
                } else {
                    assert(keep =~= Seq::<Command>::empty());
                }
            } else {
                if c is Stop {
                    if t.state {
                        assert(keep =~= Seq::<Command>::empty() + seq![Command::Seek(0)]);
                        lemma_count_where_add(Seq::empty(), seq![Command::Seek(0)], p);
                        lemma_count_where_singleton(Command::Seek(0), p);
                    } else {
                        assert(keep =~= seq![c]);
                        lemma_count_where_singleton(c, p);
                    }
                } else {
                    assert(keep =~= seq![c]);
                    lemma_count_where_singleton(c, p);
                }
            }
        } else {
            assert(t2.progress == t.progress);
            assert(count_where(keep, p) == 0) by {
                match c {
                    Command::Stop => {
                    },
                    _ => {
                        if keep.len() > 0 {
                            assert(keep =~= seq![c]);
                            lemma_count_where_singleton(c, p);
                        }
                    },
                }
            }
            assert((exists|i: int| 0 <= i < r.len() && is_progress_rep(#[trigger] r[i])) == (
            exists|i: int| 0 <= i < rest.len() && is_progress_rep(#[trigger] rest[i]))) by {
                if exists|i: int| 0 <= i < r.len() && is_progress_rep(#[trigger] r[i]) {
                    let wi = choose|i: int| 0 <= i < r.len() && is_progress_rep(#[trigger] r[i]);
                    assert(wi < r.len() - 1);
                    assert(is_progress_rep(rest[wi]));
                }
                if exists|i: int| 0 <= i < rest.len() && is_progress_rep(#[trigger] rest[i]) {
                    let wi = choose|i: int|
                        0 <= i < rest.len() && is_progress_rep(#[trigger] rest[i]);
                    assert(is_progress_rep(r[wi]));
                }
            }
        }
    }
}

/// The fine pass leaves exactly one representative of the play/pause
/// category when the batch holds one and the category is not yet covered.
proof fn lemma_fine_state_count(r: Seq<Command>, t: FineTags)
    ensures
        count_where(fine_pass(r, t), state_pred()) == if t.state {
            0nat
        } else if exists|i: int| 0 <= i < r.len() && is_state_rep(#[trigger] r[i]) {
            1nat
        } else {
            0nat
        },
    decreases r.len(),
{
    let p = state_pred();
    if r.len() == 0 {
        assert(count_where(fine_pass(r, t), p) == 0);
    } else {
        let c = r.last();
        let rest = r.drop_last();
        let t2 = fine_update(t, c);
        let keep = fine_keep(t, c);
        let tail = fine_pass(rest, t2);
        assert(fine_pass(r, t) == tail + keep);
        lemma_fine_state_count(rest, t2);
        lemma_count_where_add(tail, keep, p);
        if is_state_rep(c) {
            assert(exists|i: int| 0 <= i < r.len() && is_state_rep(#[trigger] r[i])) by {
                assert(is_state_rep(r[r.len() - 1]));
            }
            assert(t2.state);
            if t.state {
                if c is Stop {
                    if t.progress {
                        assert(keep =~= Seq::<Command>::empty() + Seq::<Command>::empty());
                        lemma_count_where_add(Seq::empty(), Seq::empty(), p);
                    } else {
                        assert(keep =~= Seq::<Command>::empty() + seq![Command::Seek(0)]);
                        lemma_count_where_add(Seq::empty(), seq![Command::Seek(0)], p);
                        lemma_count_where_singleton(Command::Seek(0), p);
                    }
                } else {
                    assert(keep =~= Seq::<Command>::empty());
                }
            } else {
                if c is Stop {
                    if t.progress {
                        assert(keep =~= seq![Command::Pause] + Seq::<Command>::empty());
                        lemma_count_where_add(seq![Command::Pause], Seq::empty(), p);
                        lemma_count_where_singleton(Command::Pause, p);
                    } else {
                        assert(keep =~= seq![c]);
                        lemma_count_where_singleton(c, p);
                    }
                } else {
                    assert(keep =~= seq![c]);
                    lemma_count_where_singleton(c, p);
                }
            }
        } else {
            assert(t2.state == t.state);
            assert(count_where(keep, p) == 0) by {
                if keep.len() > 0 {
                    assert(keep =~= seq![c]);
                    lemma_count_where_singleton(c, p);
                }
            }
            assert((exists|i: int| 0 <= i < r.len() && is_state_rep(#[trigger] r[i])) == (exists|
                i: int,
            | 0 <= i < rest.len() && is_state_rep(#[trigger] rest[i]))) by {
                if exists|i: int| 0 <= i < r.len() && is_state_rep(#[trigger] r[i]) {
                    let wi = choose|i: int| 0 <= i < r.len() && is_state_rep(#[trigger] r[i]);
                    assert(wi < r.len() - 1);
                    assert(is_state_rep(rest[wi]));
                }
                if exists|i: int| 0 <= i < rest.len() && is_state_rep(#[trigger] rest[i]) {
                    let wi = choose|i: int| 0 <= i < rest.len() && is_state_rep(#[trigger] rest[i]);
                    assert(is_state_rep(r[wi]));
                }
            }
        }
    }
}

/// A stop request survives the coarse pass when no close precedes it.
proof fn lemma_coarse_keeps_stop(s: Seq<Command>, m: bool, e: bool, f: bool)
    requires
        forall|i: int| 0 <= i < s.len() ==> !((#[trigger] s[i]) is Close),
        exists|i: int| 0 <= i < s.len() && (#[trigger] s[i]) is Stop,
    ensures
        exists|i: int|
            0 <= i < coarse_pass(s, m, e, f).len() && (#[trigger] coarse_pass(s, m, e, f)[i])
                is Stop,
    decreases s.len(),
{
    let c = s[0];
    let rest = s.skip(1);
    let out = coarse_pass(s, m, e, f);
    assert forall|i: int| 0 <= i < rest.len() implies !((#[trigger] rest[i]) is Close) by {
        assert(rest[i] == s[i + 1]);
    }
    if c is Stop {
        assert(out[0] is Stop);
    } else {
        let wi = choose|i: int| 0 <= i < s.len() && (#[trigger] s[i]) is Stop;
        assert(wi != 0);
        assert(rest[wi - 1] == s[wi]);
        let kept = !((c is CorrectAudioEndpointDefault && (m || e)) || (c is CorrectDeviceFormat
            && (m || e || f)));
        let m2 = m || c is SelectMode;
        let e2 = e || (kept && c is CorrectAudioEndpointDefault);
        let f2 = f || (kept && c is CorrectDeviceFormat);
        lemma_coarse_keeps_stop(rest, m2, e2, f2);
        let tail = coarse_pass(rest, m2, e2, f2);
        let ti = choose|i: int| 0 <= i < tail.len() && (#[trigger] tail[i]) is Stop;
        if kept {
            assert(out =~= seq![c] + tail);
            assert(out[ti + 1] is Stop);
        } else {
            assert(out =~= tail);
        }
    }
}

/// Stop decomposition law: in a batch (without close) that holds a stop, the
/// coalesced output carries exactly one seek intent and exactly one
/// play/pause intent, with `Stop` standing for both at once; so a surviving
/// `Stop` excludes any other seek, play or pause, and a decomposed stop
/// never duplicates a category that is already represented.
pub proof fn lemma_stop_decomposition(batch: Seq<Command>)
    requires
        forall|i: int| 0 <= i < batch.len() ==> !((#[trigger] batch[i]) is Close),
        exists|i: int| 0 <= i < batch.len() && (#[trigger] batch[i]) is Stop,
    ensures
        count_where(coalesce_spec(batch), progress_pred()) == 1,
        count_where(coalesce_spec(batch), state_pred()) == 1,
        forall|i: int, j: int|
            0 <= i < coalesce_spec(batch).len() && 0 <= j < coalesce_spec(batch).len() && (
            #[trigger] coalesce_spec(batch)[i]) is Stop && i != j ==> !is_progress_rep(
                #[trigger] coalesce_spec(batch)[j],
            ) && !is_state_rep(coalesce_spec(batch)[j]),
{
    let r = coarse_pass(batch, false, false, false);
    let out = coalesce_spec(batch);
    lemma_coarse_keeps_stop(batch, false, false, false);
    assert(exists|i: int| 0 <= i < r.len() && is_progress_rep(#[trigger] r[i])) by {
        let wi = choose|i: int| 0 <= i < r.len() && (#[trigger] r[i]) is Stop;
        assert(is_progress_rep(r[wi]));
    }
    assert(exists|i: int| 0 <= i < r.len() && is_state_rep(#[trigger] r[i])) by {
        let wi = choose|i: int| 0 <= i < r.len() && (#[trigger] r[i]) is Stop;
        assert(is_state_rep(r[wi]));
    }
    lemma_fine_progress_count(r, no_tags());
    lemma_fine_state_count(r, no_tags());
    assert forall|i: int, j: int|
        0 <= i < out.len() && 0 <= j < out.len() && (#[trigger] out[i]) is Stop && i
            != j implies !is_progress_rep(#[trigger] out[j]) && !is_state_rep(out[j]) by {
        if is_progress_rep(out[j]) {
            if i < j {
                lemma_count_where_two(out, progress_pred(), i, j);
            } else {
                lemma_count_where_two(out, progress_pred(), j, i);
            }
        }
        if is_state_rep(out[j]) {
            if i < j {
                lemma_count_where_two(out, state_pred(), i, j);
            } else {
                lemma_count_where_two(out, state_pred(), j, i);
            }
        }
    }
}

} // verus!

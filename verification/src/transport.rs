//! The media-transport surface's own update coalescing: of a burst of
//! pending pushes it applies only the most recent display-metadata update
//! and the most recent playback-status update, independent of the
//! playback core.

use vstd::prelude::*;

verus! {

/// One pending push to the system's media-transport surface.
#[derive(Debug, PartialEq, Eq)]
pub enum PassiveAction {
    DisplayUpdater { title: String, artist: String, thumbnail: String },
    PlaybackStatus { is_playing: bool },
}

/// The most recent action of one category: display updates when
/// `display` is set, playback-status updates otherwise.
pub open spec fn latest_matching(s: Seq<PassiveAction>, display: bool) -> Option<PassiveAction>
    decreases s.len(),
{
    if s.len() == 0 {
        None
    } else if (if display {
        s.last() is DisplayUpdater
    } else {
        s.last() is PlaybackStatus
    }) {
        Some(s.last())
    } else {
        latest_matching(s.drop_last(), display)
    }
}

/// Collapses a burst of pending pushes to at most one survivor per
/// category, each the most recently issued one.
pub fn coalesce_passive(batch: Vec<PassiveAction>) -> (out: (
    Option<PassiveAction>,
    Option<PassiveAction>,
))
    ensures
        out.0 == latest_matching(batch@, true),
        out.1 == latest_matching(batch@, false),
{
    let ghost full = batch@;
    let mut batch = batch;
    let mut display: Option<PassiveAction> = None;
    let mut status: Option<PassiveAction> = None;
    while batch.len() > 0
        invariant
            latest_matching(full, true) == (match display {
                Some(_) => display,
                None => latest_matching(batch@, true),
            }),
            latest_matching(full, false) == (match status {
                Some(_) => status,
                None => latest_matching(batch@, false),
            }),
        decreases batch.len(),
    {
        let ghost pre = batch@;
        let a = batch.pop().unwrap();
        proof {
            assert(a == pre.last());
            assert(batch@ =~= pre.drop_last());
        }
        let is_display_update = matches!(a, PassiveAction::DisplayUpdater { .. });
        if is_display_update {
            if display.is_none() {
                display = Some(a);
            }
        } else {
            if status.is_none() {
                status = Some(a);
            }
        }
    }
    (display, status)
}

} // verus!

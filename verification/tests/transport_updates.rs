use rhythm_player::transport::{PassiveAction, coalesce_passive};

fn display(title: &str) -> PassiveAction {
    PassiveAction::DisplayUpdater {
        title: String::from(title),
        artist: String::from("artist"),
        thumbnail: String::from("file://cover.png"),
    }
}

#[test]
fn latest_update_wins_per_category() {
    let (display_update, status_update) = coalesce_passive(vec![
        display("one"),
        PassiveAction::PlaybackStatus { is_playing: true },
        display("two"),
        PassiveAction::PlaybackStatus { is_playing: false },
        display("three"),
    ]);
    assert_eq!(display_update, Some(display("three")));
    assert_eq!(
        status_update,
        Some(PassiveAction::PlaybackStatus { is_playing: false })
    );
}

#[test]
fn categories_are_independent() {
    let (display_update, status_update) =
        coalesce_passive(vec![PassiveAction::PlaybackStatus { is_playing: true }]);
    assert_eq!(display_update, None);
    assert_eq!(
        status_update,
        Some(PassiveAction::PlaybackStatus { is_playing: true })
    );
}

#[test]
fn an_empty_burst_updates_nothing() {
    let (display_update, status_update) = coalesce_passive(vec![]);
    assert_eq!(display_update, None);
    assert_eq!(status_update, None);
}

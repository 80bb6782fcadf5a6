use horikawa::integrations::{
    file_url, integration_media_request, media_controls_step, presence_step, presence_text, toggle_step,
    track_title, PresenceStep, ToggleStep,
};
use horikawa::player::{MediaControlCommand, PlaybackState};
use horikawa::processor::MediaRequest;

#[test]
fn titles_fall_back_to_the_file_stem() {
    assert_eq!(track_title(Some("Song".to_string()), "/m/x.mp3"), Some("Song".to_string()));
    assert_eq!(track_title(None, "/m/Some Tune.flac"), Some("Some Tune".to_string()));
}

#[test]
fn presence_lines() {
    let (d, s) = presence_text(Some("Blue"), Some("Band"), Some("Album"));
    assert_eq!(d, "Blue");
    assert_eq!(s, "Band - Album");
    let (d, s) = presence_text(None, None, None);
    assert_eq!(d, "Unknown Track");
    assert_eq!(s, "Unknown Artist");
    let (_, s) = presence_text(Some("x"), None, Some("LP"));
    assert_eq!(s, "Unknown Artist - LP");
}

#[test]
fn presence_steps() {
    assert_eq!(presence_step(PlaybackState::Paused, Some("/a"), Some("/a")), PresenceStep::Clear);
    assert_eq!(presence_step(PlaybackState::Stopped, None, Some("/a")), PresenceStep::Nothing);
    assert_eq!(presence_step(PlaybackState::Playing, Some("/a"), Some("/b")), PresenceStep::Show);
    assert_eq!(presence_step(PlaybackState::Playing, None, Some("/b")), PresenceStep::Show);
    assert_eq!(presence_step(PlaybackState::Playing, Some("/b"), Some("/b")), PresenceStep::Nothing);
    assert_eq!(presence_step(PlaybackState::Playing, Some("/b"), None), PresenceStep::Forget);
}

#[test]
fn media_keys_toggle_in_the_worker() {
    assert_eq!(integration_media_request(MediaControlCommand::Play), MediaRequest::TogglePlayback);
    assert_eq!(integration_media_request(MediaControlCommand::Stop), MediaRequest::Stop);
}

#[test]
fn file_urls() {
    assert_eq!(file_url("/home/me/cover.jpg"), "file:///home/me/cover.jpg");
    assert_eq!(file_url("\\\\?\\C:\\Music\\cover.jpg"), "file://C:\\Music\\cover.jpg");
}

#[test]
fn presence_compares_tracks_as_paths() {
    assert_eq!(presence_step(PlaybackState::Playing, Some("/m/a.mp3"), Some("/m//a.mp3")), PresenceStep::Nothing);
    assert_eq!(presence_step(PlaybackState::Playing, Some("/m/a.mp3"), Some("/m/b.mp3")), PresenceStep::Show);
}

#[test]
fn media_controls_update_on_change_or_force() {
    assert_eq!(media_controls_step(None, None, true, PlaybackState::Stopped, None), (true, true));
    assert_eq!(
        media_controls_step(Some(PlaybackState::Playing), Some("/a"), false, PlaybackState::Playing, Some("/a/")),
        (false, false)
    );
    assert_eq!(
        media_controls_step(Some(PlaybackState::Playing), Some("/a"), false, PlaybackState::Paused, Some("/b")),
        (true, true)
    );
    assert_eq!(
        media_controls_step(Some(PlaybackState::Paused), Some("/a"), true, PlaybackState::Paused, Some("/a")),
        (false, true)
    );
}

#[test]
fn settings_toggle_integrations() {
    assert_eq!(toggle_step(false, true), ToggleStep::Enable);
    assert_eq!(toggle_step(true, false), ToggleStep::Disable);
    assert_eq!(toggle_step(true, true), ToggleStep::Keep);
    assert_eq!(toggle_step(false, false), ToggleStep::Keep);
}

use horikawa::playlist::{Playlist, RepeatMode};
use horikawa::player::{MediaControlCommand, PlaybackState};
use horikawa::processor::{
    apply_queue_command, changes_to_send, dir_playlists_message, media_request, play_selected,
    playlists_message, repeat_request, MediaRequest, QueueCommand, Reported,
};
use horikawa::command::RepeatModeArg;
use horikawa::protocol::RepeatModeValue;

fn playlist_of(tracks: &[&str]) -> Playlist {
    let mut p = Playlist::new();
    p.add_many(tracks.iter().map(|t| t.to_string()).collect());
    p
}

#[test]
fn play_track_makes_it_current_and_plays_it() {
    let mut p = playlist_of(&["a", "b", "c"]);
    let out = apply_queue_command(&mut p, QueueCommand::PlayTrack { index: 1 });
    assert_eq!(out.play, Some("b".to_string()));
    assert!(!out.stop);
    assert!(out.playlist_changed);
    assert_eq!(p.current_index(), Some(1));

    let out = apply_queue_command(&mut p, QueueCommand::PlayTrack { index: 9 });
    assert_eq!(out.play, None);
    assert_eq!(p.current_index(), Some(1));
}

#[test]
fn remove_and_clear() {
    let mut p = playlist_of(&["a", "b", "c"]);
    p.jump_to(2);
    let out = apply_queue_command(&mut p, QueueCommand::RemoveTrack { index: 0 });
    assert!(out.playlist_changed);
    assert_eq!(p.tracks(), &["b".to_string(), "c".to_string()][..]);
    assert_eq!(p.current_index(), Some(1));

    let out = apply_queue_command(&mut p, QueueCommand::ClearPlaylist);
    assert!(out.stop);
    assert!(out.playlist_changed);
    assert!(p.is_empty());
    assert_eq!(p.current_index(), None);
}

#[test]
fn shuffle_and_repeat_commands() {
    let mut p = playlist_of(&["a", "b"]);
    let out = apply_queue_command(&mut p, QueueCommand::ToggleShuffle);
    assert!(p.shuffle());
    assert!(!out.playlist_changed);
    apply_queue_command(&mut p, QueueCommand::ToggleShuffle);
    assert!(!p.shuffle());

    apply_queue_command(&mut p, QueueCommand::SetRepeat { mode: RepeatModeValue::All });
    assert_eq!(p.repeat(), RepeatMode::All);
    apply_queue_command(&mut p, QueueCommand::CycleRepeat);
    assert_eq!(p.repeat(), RepeatMode::Off);
    apply_queue_command(&mut p, QueueCommand::CycleRepeat);
    assert_eq!(p.repeat(), RepeatMode::One);
    apply_queue_command(&mut p, QueueCommand::CycleRepeat);
    assert_eq!(p.repeat(), RepeatMode::All);
}

#[test]
fn move_track_command() {
    let mut p = playlist_of(&["a", "b", "c"]);
    p.jump_to(0);
    let out = apply_queue_command(&mut p, QueueCommand::MoveTrack { from: 0, to: 2 });
    assert!(out.playlist_changed);
    assert_eq!(p.tracks(), &["b".to_string(), "c".to_string(), "a".to_string()][..]);
    assert_eq!(p.current_index(), Some(2));
    apply_queue_command(&mut p, QueueCommand::MoveTrack { from: 0, to: 5 });
    assert_eq!(p.tracks(), &["b".to_string(), "c".to_string(), "a".to_string()][..]);
}

#[test]
fn dedup_command_reports_removed_count() {
    let mut p = playlist_of(&["a", "b", "a", "c", "b"]);
    let out = apply_queue_command(&mut p, QueueCommand::Dedup);
    assert_eq!(out.status, Some("Removed 2 duplicate(s)".to_string()));
    assert!(out.playlist_changed);
    assert_eq!(p.tracks(), &["a".to_string(), "b".to_string(), "c".to_string()][..]);

    let out = apply_queue_command(&mut p, QueueCommand::Dedup);
    assert_eq!(out.status, None);
    assert!(!out.playlist_changed);
}

#[test]
fn playlist_list_messages() {
    assert_eq!(playlists_message(&vec![]), "No saved playlists");
    assert_eq!(playlists_message(&vec!["a".to_string()]), "Playlists: a");
    assert_eq!(
        playlists_message(&vec!["a".to_string(), "b c".to_string(), "d".to_string()]),
        "Playlists: a, b c, d"
    );
    assert_eq!(dir_playlists_message(&vec![]), "No saved directory playlists");
    assert_eq!(dir_playlists_message(&vec!["x".to_string(), "y".to_string()]), "Dir Playlists: x, y");
}

#[test]
fn play_selected_starts_from_current_or_first() {
    use_play_selected();
}

fn use_play_selected() {
    let mut p = playlist_of(&["a", "b"]);
    assert_eq!(play_selected(&mut p), Some("a".to_string()));
    assert_eq!(p.current_index(), Some(0));
    p.jump_to(1);
    assert_eq!(play_selected(&mut p), Some("b".to_string()));
    assert_eq!(p.current_index(), Some(1));
    let mut empty = Playlist::new();
    assert_eq!(play_selected(&mut empty), None);
    assert_eq!(empty.current_index(), None);
}

#[test]
fn media_keys_resume_when_paused() {
    assert_eq!(media_request(MediaControlCommand::Play, PlaybackState::Paused), MediaRequest::Resume);
    assert_eq!(media_request(MediaControlCommand::Play, PlaybackState::Stopped), MediaRequest::Play);
    assert_eq!(media_request(MediaControlCommand::Toggle, PlaybackState::Playing), MediaRequest::TogglePlayback);
    assert_eq!(media_request(MediaControlCommand::Previous, PlaybackState::Playing), MediaRequest::Previous);
}

#[test]
fn changes_due_on_a_tick() {
    let last = Reported { state: PlaybackState::Stopped, track: None, shuffle: false, repeat: RepeatMode::Off };
    let now = Reported {
        state: PlaybackState::Playing,
        track: Some("/a.mp3".to_string()),
        shuffle: false,
        repeat: RepeatMode::All,
    };
    let c = changes_to_send(&last, &now, false, 600, 50, true);
    assert!(c.state && c.track && c.mode && c.position);
    assert!(!c.volume && !c.visualizer);
    let same = Reported { track: Some("/a.mp3".to_string()), ..now };
    let now2 = Reported { state: PlaybackState::Playing, track: Some("/a.mp3".to_string()), shuffle: false, repeat: RepeatMode::All };
    let c = changes_to_send(&same, &now2, true, 100, 100, true);
    assert!(!c.state && !c.track && !c.mode && !c.position);
    assert!(c.volume && c.visualizer);
    let paused = Reported { state: PlaybackState::Paused, ..now2 };
    let c = changes_to_send(&paused, &paused, false, 900, 900, true);
    assert!(!c.position && !c.visualizer && !c.state);
}

#[test]
fn repeat_argument_picks_the_request() {
    assert_eq!(repeat_request(Some(RepeatModeArg::Off)), QueueCommand::SetRepeat { mode: RepeatModeValue::Off });
    assert_eq!(repeat_request(Some(RepeatModeArg::One)), QueueCommand::SetRepeat { mode: RepeatModeValue::One });
    assert_eq!(repeat_request(Some(RepeatModeArg::All)), QueueCommand::SetRepeat { mode: RepeatModeValue::All });
    assert_eq!(repeat_request(None), QueueCommand::CycleRepeat);
}

#[test]
fn track_changes_are_path_changes() {
    let last = Reported { state: PlaybackState::Playing, track: Some("/m/a.mp3".to_string()), shuffle: false, repeat: RepeatMode::Off };
    let now = Reported { state: PlaybackState::Playing, track: Some("/m//a.mp3".to_string()), shuffle: false, repeat: RepeatMode::Off };
    assert!(!changes_to_send(&last, &now, false, 0, 0, false).track);
    let other = Reported { state: PlaybackState::Playing, track: Some("/m/b.mp3".to_string()), shuffle: false, repeat: RepeatMode::Off };
    assert!(changes_to_send(&last, &other, false, 0, 0, false).track);
}

use horikawa::browser::BrowserEntry;
use horikawa::keys::{
    add_target, browser_view_key, display_view_key, help_view_key, playback_key, playlist_view_key,
    playlists_view_key, save_target, settings_view_key, BrowserViewAction, DisplayViewAction, Key,
    KeyPress, PlaybackAction, PlaylistViewAction, PlaylistsViewAction, SettingsViewAction,
};
use horikawa::popup::PlaylistEntry;
use horikawa::view::ViewMode;

fn key(k: Key) -> KeyPress {
    KeyPress { key: k, ctrl: false, shift: false }
}

fn ch(c: char) -> KeyPress {
    key(Key::Char(c))
}

#[test]
fn playback_keys() {
    assert_eq!(playback_key(ch(' ')), Some(PlaybackAction::TogglePlayback));
    assert_eq!(playback_key(ch('=')), Some(PlaybackAction::VolumeUp));
    assert_eq!(playback_key(ch('_')), Some(PlaybackAction::VolumeDown));
    assert_eq!(playback_key(ch('m')), Some(PlaybackAction::ToggleMute));
    assert_eq!(playback_key(ch('l')), Some(PlaybackAction::Next));
    assert_eq!(playback_key(key(Key::Left)), Some(PlaybackAction::Previous));
    let ctrl_l = KeyPress { key: Key::Char('l'), ctrl: true, shift: false };
    assert_eq!(playback_key(ctrl_l), Some(PlaybackAction::SeekForward));
    let ctrl_left = KeyPress { key: Key::Left, ctrl: true, shift: false };
    assert_eq!(playback_key(ctrl_left), Some(PlaybackAction::SeekBackward));
    assert_eq!(playback_key(ch('x')), None);
}

#[test]
fn playlist_view_keys() {
    assert_eq!(playlist_view_key(ch('b'), false), PlaylistViewAction::SwitchView { view: ViewMode::Browser, refresh: false });
    assert_eq!(playlist_view_key(ch('p'), false), PlaylistViewAction::SwitchView { view: ViewMode::Playlists, refresh: true });
    assert_eq!(playlist_view_key(ch('q'), false), PlaylistViewAction::Quit);
    assert_eq!(playlist_view_key(ch(' '), false), PlaylistViewAction::PlayPause);
    assert_eq!(playlist_view_key(ch('s'), false), PlaylistViewAction::SavePrompt);
    assert_eq!(playlist_view_key(ch('s'), true), PlaylistViewAction::Nothing);
    assert_eq!(playlist_view_key(ch('k'), false), PlaylistViewAction::SelectPrevious);
    assert_eq!(playlist_view_key(key(Key::Down), false), PlaylistViewAction::SelectNext);
    let shift_j = KeyPress { key: Key::Char('J'), ctrl: false, shift: true };
    assert_eq!(playlist_view_key(shift_j, true), PlaylistViewAction::MoveDown);
    assert_eq!(playlist_view_key(shift_j, false), PlaylistViewAction::Nothing);
    assert_eq!(playlist_view_key(ch('d'), true), PlaylistViewAction::DeleteSelected);
    assert_eq!(playlist_view_key(ch('d'), false), PlaylistViewAction::Nothing);
    assert_eq!(playlist_view_key(ch('c'), true), PlaylistViewAction::ClearPlaylist);
    assert_eq!(playlist_view_key(key(Key::Enter), false), PlaylistViewAction::PlaySelected);
    assert_eq!(playlist_view_key(ch('h'), false), PlaylistViewAction::Playback(PlaybackAction::Previous));
    assert_eq!(playlist_view_key(ch('r'), false), PlaylistViewAction::CycleRepeat);
    assert_eq!(playlist_view_key(ch('R'), false), PlaylistViewAction::Reload);
    assert_eq!(playlist_view_key(ch('S'), false), PlaylistViewAction::ToggleShuffle);
    assert_eq!(playlist_view_key(ch('g'), false), PlaylistViewAction::SelectFirst);
    assert_eq!(playlist_view_key(key(Key::End), false), PlaylistViewAction::SelectLast);
    assert_eq!(playlist_view_key(ch('e'), true), PlaylistViewAction::ToggleEditMode);
}

#[test]
fn browser_view_keys() {
    assert_eq!(browser_view_key(Key::Char('b')), BrowserViewAction::SwitchView { view: ViewMode::Playlist, refresh: false });
    assert_eq!(browser_view_key(Key::Esc), BrowserViewAction::ToPlaylist);
    assert_eq!(browser_view_key(Key::Char('l')), BrowserViewAction::EnterSelected);
    assert_eq!(browser_view_key(Key::Backspace), BrowserViewAction::GoUp);
    assert_eq!(browser_view_key(Key::Char('a')), BrowserViewAction::AddSelected);
    assert_eq!(browser_view_key(Key::Char('S')), BrowserViewAction::SaveDirPlaylist);
    assert_eq!(browser_view_key(Key::Char('.')), BrowserViewAction::ToggleHidden);
    assert_eq!(browser_view_key(Key::Char('~')), BrowserViewAction::GoHome);
    assert_eq!(browser_view_key(Key::Char('z')), BrowserViewAction::Nothing);
}

fn entry(path: &str, name: &str, is_dir: bool, is_audio: bool) -> BrowserEntry {
    BrowserEntry { path: path.to_string(), name: name.to_string(), is_dir, is_audio }
}

#[test]
fn browser_entry_targets() {
    assert_eq!(add_target(&entry("/m/rock", "rock", true, false)), Some("/m/rock".to_string()));
    assert_eq!(add_target(&entry("/", "..", true, false)), None);
    assert_eq!(add_target(&entry("/m/a.mp3", "a.mp3", false, true)), Some("/m/a.mp3".to_string()));
    assert_eq!(add_target(&entry("/m/a.txt", "a.txt", false, false)), None);
    assert_eq!(
        save_target(&entry("/m/rock", "rock", true, false)),
        Some(("/m/rock".to_string(), "rock".to_string()))
    );
    assert_eq!(save_target(&entry("/", "..", true, false)), None);
    assert_eq!(
        save_target(&entry("/m/jazz/a.mp3", "a.mp3", false, true)),
        Some(("/m/jazz".to_string(), "jazz".to_string()))
    );
}

#[test]
fn playlists_view_keys() {
    let entries = vec![PlaylistEntry::M3u("a".to_string()), PlaylistEntry::DirPl("b".to_string())];
    assert!(matches!(playlists_view_key(ch('k'), &entries, 0), PlaylistsViewAction::Select(1)));
    assert!(matches!(playlists_view_key(ch('j'), &entries, 1), PlaylistsViewAction::Select(0)));
    match playlists_view_key(key(Key::Enter), &entries, 1) {
        PlaylistsViewAction::Load(e) => assert_eq!(e, PlaylistEntry::DirPl("b".to_string())),
        _ => panic!("expected a load"),
    }
    match playlists_view_key(ch('r'), &entries, 0) {
        PlaylistsViewAction::RenamePrompt(e) => assert_eq!(e, PlaylistEntry::M3u("a".to_string())),
        _ => panic!("expected a rename"),
    }
    assert!(matches!(playlists_view_key(ch('d'), &vec![], 0), PlaylistsViewAction::Nothing));
    assert!(matches!(playlists_view_key(ch('k'), &vec![], 0), PlaylistsViewAction::Nothing));
    assert!(matches!(playlists_view_key(ch('p'), &entries, 0), PlaylistsViewAction::SwitchView { view: ViewMode::Playlist, refresh: false }));
    assert!(matches!(playlists_view_key(ch('m'), &entries, 0), PlaylistsViewAction::Playback(PlaybackAction::ToggleMute)));
}

#[test]
fn settings_display_and_help_keys() {
    assert_eq!(settings_view_key(ch('j'), 0), SettingsViewAction::Select(1));
    assert_eq!(settings_view_key(ch('j'), 1), SettingsViewAction::Nothing);
    assert_eq!(settings_view_key(ch('k'), 0), SettingsViewAction::Nothing);
    assert_eq!(settings_view_key(key(Key::Enter), 1), SettingsViewAction::ToggleMediaControls);
    assert_eq!(settings_view_key(key(Key::Enter), 0), SettingsViewAction::ToggleDiscord);
    assert_eq!(settings_view_key(ch('b'), 0), SettingsViewAction::Nothing);
    assert_eq!(display_view_key(ch('s'), true), DisplayViewAction::NextStyle);
    assert_eq!(display_view_key(ch('s'), false), DisplayViewAction::Nothing);
    assert_eq!(display_view_key(ch('v'), true), DisplayViewAction::SwitchView { view: ViewMode::Playlist, refresh: false });
    assert_eq!(display_view_key(ch('i'), false), DisplayViewAction::SwitchView { view: ViewMode::Playlist, refresh: false });
    assert_eq!(help_view_key(Key::Char('?'), 7), (true, 0));
    assert_eq!(help_view_key(Key::Up, 0), (false, 0));
    assert_eq!(help_view_key(Key::PageDown, 3), (false, 13));
    assert_eq!(help_view_key(Key::PageDown, u16::MAX - 2), (false, u16::MAX));
    assert_eq!(help_view_key(Key::PageUp, 4), (false, 0));
    assert_eq!(help_view_key(Key::Home, 4), (false, 0));
}

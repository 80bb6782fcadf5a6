use horikawa::command::seek_fits;
use horikawa::dir_playlist::DirPlaylistError;
use horikawa::library::LibraryError;
use horikawa::playlist::PlaylistError;
use horikawa::player::PlaybackState;
use horikawa::playlist::{Playlist, RepeatMode};
use horikawa::protocol::{
    build_track_entries, cycle_repeat, playback_state_to_value, repeat_mode_from_value,
    repeat_mode_to_value, PlaybackStateValue, RepeatModeValue,
};
use horikawa::settings::{ProcessorSettings, Settings};
use horikawa::view::{ViewMode, VisualizerStyle};
use horikawa::command::{Command, CommandError, RepeatModeArg};

#[test]
fn tabs_cycle_through_the_views() {
    let mut v = ViewMode::default();
    assert_eq!(v, ViewMode::Playlist);
    let order = [
        ViewMode::Browser,
        ViewMode::Playlists,
        ViewMode::TrackInfo,
        ViewMode::Visualizer,
        ViewMode::Settings,
        ViewMode::Playlist,
    ];
    for expected in order {
        v = v.next_tab();
        assert_eq!(v, expected);
        assert_eq!(v.prev_tab().next_tab(), v);
    }
    assert_eq!(ViewMode::Help.next_tab(), ViewMode::Help);
    assert_eq!(ViewMode::Help.prev_tab(), ViewMode::Help);
}

#[test]
fn visualizer_styles_cycle() {
    let mut s = VisualizerStyle::default();
    let first = s;
    let mut names = Vec::new();
    for _ in 0..4 {
        names.push(s.name().to_string());
        s = s.next();
    }
    assert_eq!(s, first);
    names.sort();
    names.dedup();
    assert_eq!(names.len(), 4);
}

#[test]
fn protocol_repeat_and_state_values() {
    for m in [RepeatMode::Off, RepeatMode::One, RepeatMode::All] {
        assert_eq!(repeat_mode_from_value(repeat_mode_to_value(m)), m);
    }
    assert_eq!(repeat_mode_to_value(RepeatMode::One), RepeatModeValue::One);
    assert_eq!(cycle_repeat(RepeatMode::Off), RepeatMode::One);
    assert_eq!(cycle_repeat(RepeatMode::All), RepeatMode::Off);
    assert_eq!(playback_state_to_value(PlaybackState::Paused), PlaybackStateValue::Paused);
    assert_eq!(playback_state_to_value(PlaybackState::Stopped), PlaybackStateValue::Stopped);
}

#[test]
fn track_entries_use_file_stems() {
    let mut p = Playlist::new();
    p.add_many(vec!["/m/One Song.mp3".to_string(), "/m/two.flac".to_string()]);
    p.jump_to(1);
    let entries = build_track_entries(&p);
    assert_eq!(entries.len(), 2);
    assert_eq!(entries[0].display_name, "One Song");
    assert_eq!(entries[0].path, "/m/One Song.mp3");
    assert_eq!(entries[1].display_name, "two");
}

#[test]
fn settings_defaults_and_toggle() {
    let s = Settings::default();
    assert!(s.discord_enabled && s.smtc_enabled);
    let mut p = ProcessorSettings::default();
    assert_eq!(p.web_port, 8384);
    assert_eq!(p.web_bind, "127.0.0.1");
    assert!(!p.web_enabled);
    assert!(p.toggle("web_enabled"));
    assert!(p.web_enabled);
    assert!(p.toggle("discord_enabled"));
    assert!(!p.discord_enabled);
    assert!(!p.toggle("volume"));
}

#[test]
fn command_descriptions_and_errors() {
    assert!(matches!(Command::parse("repeat sometimes"), Err(CommandError::InvalidArgument(_))));
    assert_eq!(Command::parse("vol 80").unwrap(), Command::Volume { level: Some(80) });
    assert_eq!(Command::parse("vol loud").unwrap(), Command::Volume { level: None });
    assert_eq!(Command::parse("repeat ONE").unwrap(), Command::Repeat { mode: Some(RepeatModeArg::One) });
    assert_eq!("all".parse::<RepeatModeArg>().unwrap(), RepeatModeArg::All);
}


#[test]
fn seek_positions_that_fit() {
    assert!(seek_fits("seek 1:30"));
    assert!(seek_fits("seek 99999999999999999999999:0"));
    assert!(!seek_fits("seek 307445734561825861:0"));
    assert!(!seek_fits("sk 307445734561825860:16"));
    assert!(seek_fits("sk 307445734561825860:15"));
    assert!(seek_fits("add 307445734561825861:0"));
    assert!(seek_fits(""));
}

#[test]
fn error_messages() {
    assert_eq!(CommandError::Unknown("foo".to_string()).message(), "Unknown command: foo");
    assert_eq!(CommandError::MissingArgument("path".to_string()).message(), "Missing argument: path");
    assert_eq!(PlaylistError::InvalidFormat.message(), "Invalid playlist format");
    assert_eq!(PlaylistError::Io("denied".to_string()).message(), "IO error: denied");
    assert_eq!(LibraryError::NotFound("/x".to_string()).message(), "Path not found: /x");
    assert_eq!(DirPlaylistError::DirNotFound("/d".to_string()).message(), "Directory not found: /d");
}

#[test]
fn time_parsing_and_command_hints() {
    use_time_and_hints();
}

fn use_time_and_hints() {
    assert_eq!(horikawa::command::parse_time("1:30").unwrap(), 90);
    assert_eq!(horikawa::command::parse_time(" 45 ").unwrap(), 45);
    match horikawa::command::parse_time("1:xx") {
        Err(e) => assert_eq!(e.message(), "Invalid argument: Invalid seconds: xx"),
        Ok(_) => panic!("expected an error"),
    }
    let defs = horikawa::command::command_defs();
    let queue = defs.iter().find(|d| d.name == "queue").unwrap();
    assert_eq!(horikawa::command::build_def_hint(queue), "add <path>");
    let goto = defs.iter().find(|d| d.name == "goto").unwrap();
    assert_eq!(horikawa::command::build_def_hint(goto), "<path>");
    let play = defs.iter().find(|d| d.name == "play").unwrap();
    assert_eq!(horikawa::command::build_def_hint(play), "");
    assert!(matches!(Command::try_parse("seek 1:30"), Some(Ok(Command::Seek { position: 90 }))));
    assert!(Command::try_parse("seek 307445734561825861:0").is_none());
}

#[test]
fn parsing_from_lowercased_words() {
    let w: Vec<char> = "queue".chars().collect();
    let a: Vec<char> = "add /music".chars().collect();
    assert_eq!(Command::parse_words(&w, Some(a)).unwrap(), Command::Add { path: "/music".to_string() });
    let w: Vec<char> = "stop".chars().collect();
    assert_eq!(Command::parse_words(&w, None).unwrap(), Command::Stop);
    let first: Vec<char> = "go".chars().collect();
    assert_eq!(horikawa::command::suggestion_for(1, false, &first, &vec![]), Some("to <path>".to_string()));
    let first: Vec<char> = "queue".chars().collect();
    let second: Vec<char> = "a".chars().collect();
    assert_eq!(horikawa::command::suggestion_for(2, false, &first, &second), Some("dd <path>".to_string()));
    assert!(horikawa::library::is_audio_extension(&"flac".chars().collect()));
    assert!(!horikawa::library::is_audio_extension(&"FLAC".chars().collect()));
}

#[test]
fn settings_snapshot_carries_the_toggles() {
    let mut p = ProcessorSettings::default();
    p.toggle("smtc_enabled");
    let snap = p.to_snapshot();
    assert!(snap.discord_enabled);
    assert!(!snap.smtc_enabled);
}

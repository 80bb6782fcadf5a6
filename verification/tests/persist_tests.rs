use horikawa::dir_playlist::DirectoryPlaylist;
use horikawa::persist::{saved_names, SessionState};
use horikawa::playlist::{Playlist, RepeatMode};

fn playlist_of(tracks: &[&str]) -> Playlist {
    let mut p = Playlist::new();
    p.add_many(tracks.iter().map(|t| t.to_string()).collect());
    p
}

#[test]
fn m3u_text_has_header_and_one_line_per_track() {
    let p = playlist_of(&["/music/a.mp3", "/music/b.flac"]);
    assert_eq!(p.to_m3u(), "#EXTM3U\n/music/a.mp3\n/music/b.flac\n");
    assert_eq!(Playlist::new().to_m3u(), "#EXTM3U\n");
}

#[test]
fn m3u_save_then_load_gives_the_tracks_back() {
    let p = playlist_of(&["/music/a.mp3", "\\\\server\\share\\b.flac", "C:\\music\\c d.ogg"]);
    let q = Playlist::from_m3u(&p.to_m3u());
    assert_eq!(q.tracks(), p.tracks());
    assert_eq!(q.current_index(), None);
    assert!(!q.shuffle());
    assert_eq!(q.repeat(), RepeatMode::Off);
}

#[test]
fn m3u_load_skips_comments_and_blank_lines_and_trims() {
    let text = "#EXTM3U\r\n#EXTINF:123,Artist - Title\r\n  /music/a.mp3  \r\n\r\n\t\n/music/b.mp3";
    let p = Playlist::from_m3u(text);
    assert_eq!(p.tracks(), &["/music/a.mp3".to_string(), "/music/b.mp3".to_string()][..]);
    assert!(Playlist::from_m3u("").is_empty());
    assert!(Playlist::from_m3u("#only a comment\n").is_empty());
}

#[test]
fn session_text_is_key_value_lines() {
    let s = SessionState {
        playlist_name: "m3u:rock".to_string(),
        track_index: Some(12),
        shuffle: true,
        repeat: RepeatMode::One,
        volume_percent: 75,
    };
    assert_eq!(
        Playlist::session_text(&s),
        "playlist=m3u:rock\ntrack=12\nshuffle=1\nrepeat=one\nvolume=75\n"
    );
    let t = SessionState { track_index: None, shuffle: false, repeat: RepeatMode::Off, volume_percent: -5, ..s };
    assert_eq!(
        Playlist::session_text(&t),
        "playlist=m3u:rock\ntrack=\nshuffle=0\nrepeat=off\nvolume=-5\n"
    );
}

#[test]
fn session_write_then_read_gives_it_back() {
    for (track, shuffle, repeat, volume) in [
        (Some(0usize), false, RepeatMode::Off, 100),
        (None, true, RepeatMode::All, 0),
        (Some(99), true, RepeatMode::One, 150),
    ] {
        let s = SessionState {
            playlist_name: "dirpl:jazz night".to_string(),
            track_index: track,
            shuffle,
            repeat,
            volume_percent: volume,
        };
        let back = Playlist::parse_session(&Playlist::session_text(&s)).unwrap();
        assert_eq!(back.playlist_name, s.playlist_name);
        assert_eq!(back.track_index, s.track_index);
        assert_eq!(back.shuffle, s.shuffle);
        assert_eq!(back.repeat, s.repeat);
        assert_eq!(back.volume_percent, s.volume_percent);
    }
}

#[test]
fn session_read_defaults_and_overrides() {
    let s = Playlist::parse_session("playlist = x \nrepeat= 2\nbogus\ntrack=abc\nvolume=loud\n").unwrap();
    assert_eq!(s.playlist_name, "x");
    assert_eq!(s.repeat, RepeatMode::All);
    assert_eq!(s.track_index, None);
    assert!(!s.shuffle);
    assert_eq!(s.volume_percent, 100);

    let s = Playlist::parse_session("playlist=a\nplaylist=b\nrepeat=1\nshuffle=1\nvolume=42\ntrack=+3").unwrap();
    assert_eq!(s.playlist_name, "b");
    assert_eq!(s.repeat, RepeatMode::One);
    assert!(s.shuffle);
    assert_eq!(s.volume_percent, 42);
    assert_eq!(s.track_index, Some(3));
}

#[test]
fn session_without_playlist_is_none() {
    assert!(Playlist::parse_session("").is_none());
    assert!(Playlist::parse_session("track=1\nshuffle=1\n").is_none());
    assert!(Playlist::parse_session("playlist=   \n").is_none());
}

#[test]
fn saved_names_filter_sort_and_skip_last() {
    let files = vec![
        "/p/b.m3u".to_string(),
        "/p/_last.m3u".to_string(),
        "/p/A.m3u".to_string(),
        "/p/a.m3u".to_string(),
        "/p/c.horikawa".to_string(),
        "/p/d.m3u.bak".to_string(),
    ];
    assert_eq!(saved_names(&files, "m3u"), vec!["A".to_string(), "a".to_string(), "b".to_string()]);
    assert_eq!(DirectoryPlaylist::list(&files), vec!["c".to_string()]);
    assert!(DirectoryPlaylist::list(&vec![]).is_empty());
}

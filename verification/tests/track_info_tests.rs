use horikawa::player::AudioMetadata;
use horikawa::track_info::{format_duration, track_info_lines};

fn pairs(v: &[(&str, &str)]) -> Vec<(String, String)> {
    v.iter().map(|(a, b)| (a.to_string(), b.to_string())).collect()
}

#[test]
fn no_track_shows_a_hint() {
    assert_eq!(
        track_info_lines(None, None, None),
        pairs(&[
            ("No track selected or playing", ""),
            ("", ""),
            ("Select a track in the playlist and press 'i' to view its info,", ""),
            ("or start playing a track first.", ""),
        ])
    );
}

#[test]
fn without_metadata_the_title_is_the_file_stem() {
    let lines = track_info_lines(Some("/music/Artist/Song Name.flac"), None, None);
    assert_eq!(
        lines,
        pairs(&[
            ("Title:  ", "Song Name"),
            ("Artist: ", "Unknown"),
            ("Album:  ", "Unknown"),
            ("", ""),
            ("", ""),
            ("─── Audio Format ───", ""),
            ("", ""),
            ("─── File ───", ""),
            ("File: ", "Song Name.flac"),
            ("Path: ", "/music/Artist/Song Name.flac"),
        ])
    );
}

#[test]
fn full_metadata_is_shown() {
    let meta = AudioMetadata {
        title: Some("Tagged".to_string()),
        artist: Some("Band".to_string()),
        album: None,
        album_artist: Some("Various".to_string()),
        track_number: Some(7),
        genre: None,
        year: Some(1999),
        codec: Some("FLAC".to_string()),
        bitrate: Some(320),
        sample_rate: Some(44100),
        channels: Some(2),
    };
    let lines = track_info_lines(Some("/m/x.flac"), Some(&meta), Some(185));
    assert_eq!(
        lines,
        pairs(&[
            ("Title:  ", "Tagged"),
            ("Artist: ", "Band"),
            ("Album:  ", "Unknown"),
            ("", ""),
            ("Album Artist: ", "Various"),
            ("Track #: ", "7"),
            ("Year:   ", "1999"),
            ("", ""),
            ("─── Audio Format ───", ""),
            ("Codec:       ", "FLAC"),
            ("Bitrate:     ", "320 kbps"),
            ("Sample Rate: ", "44100 Hz"),
            ("Channels:    ", "Stereo"),
            ("Duration:    ", "3:05"),
            ("", ""),
            ("─── File ───", ""),
            ("File: ", "x.flac"),
            ("Path: ", "/m/x.flac"),
        ])
    );
}

#[test]
fn channel_counts_read_as_words_or_numbers() {
    let mut meta = AudioMetadata::default();
    for (n, text) in [(1, "Mono"), (2, "Stereo"), (6, "6 channels"), (0, "0 channels")] {
        meta.channels = Some(n);
        let lines = track_info_lines(Some("/a.ogg"), Some(&meta), None);
        assert!(lines.contains(&("Channels:    ".to_string(), text.to_string())));
    }
    meta.channels = None;
    let lines = track_info_lines(Some("/a.ogg"), Some(&meta), None);
    assert!(!lines.iter().any(|(l, _)| l == "Channels:    "));
    // A tagged title wins over the file stem; with no title the stem is used.
    assert_eq!(lines[0], ("Title:  ".to_string(), "a".to_string()));
}

#[test]
fn durations_have_two_digit_seconds() {
    assert_eq!(format_duration(0), "0:00");
    assert_eq!(format_duration(9), "0:09");
    assert_eq!(format_duration(60), "1:00");
    assert_eq!(format_duration(3599), "59:59");
    assert_eq!(format_duration(3600), "60:00");
}

#[test]
fn a_path_without_a_file_name_shows_unknown() {
    let lines = track_info_lines(Some("/"), None, None);
    assert_eq!(lines[0], ("Title:  ".to_string(), "Unknown".to_string()));
    assert_eq!(lines[8], ("File: ".to_string(), "Unknown".to_string()));
    assert_eq!(lines[9], ("Path: ".to_string(), "/".to_string()));
}

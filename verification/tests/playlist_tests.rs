use horikawa::playlist::{shuffle_order_from, Playlist, RepeatMode};

fn playlist_of(tracks: &[&str]) -> Playlist {
    let mut p = Playlist::new();
    p.add_many(tracks.iter().map(|t| t.to_string()).collect());
    p
}

fn strings(tracks: &[&str]) -> Vec<String> {
    tracks.iter().map(|t| t.to_string()).collect()
}

#[test]
fn new_playlist_is_empty() {
    let mut p = Playlist::new();
    assert!(p.is_empty());
    assert_eq!(p.len(), 0);
    assert_eq!(p.current(), None);
    assert_eq!(p.next_track(), None);
    assert_eq!(p.previous(), None);
    assert_eq!(p.repeat(), RepeatMode::Off);
    assert_eq!(RepeatMode::default(), RepeatMode::Off);
}

#[test]
fn add_keeps_order() {
    let mut p = Playlist::new();
    p.add("a".to_string());
    p.add_many(strings(&["b", "c"]));
    assert_eq!(p.tracks(), &strings(&["a", "b", "c"])[..]);
}

#[test]
fn next_without_current_starts_after_the_first() {
    let mut p = playlist_of(&["a", "b", "c"]);
    assert_eq!(p.next_track(), Some(&"b".to_string()));
    assert_eq!(p.next_track(), Some(&"c".to_string()));
    assert_eq!(p.next_track(), None);
    assert_eq!(p.current_index(), Some(2));
}

#[test]
fn repeat_all_wraps_and_repeat_one_stays() {
    let mut p = playlist_of(&["a", "b"]);
    p.set_repeat(RepeatMode::All);
    p.jump_to(1);
    assert_eq!(p.next_track(), Some(&"a".to_string()));
    assert_eq!(p.previous(), Some(&"b".to_string()));
    p.set_repeat(RepeatMode::One);
    assert_eq!(p.next_track(), Some(&"b".to_string()));
    assert_eq!(p.current_index(), Some(1));
}

#[test]
fn previous_stops_at_first_without_repeat() {
    let mut p = playlist_of(&["a", "b", "c"]);
    p.jump_to(1);
    assert_eq!(p.previous(), Some(&"a".to_string()));
    assert_eq!(p.previous(), Some(&"a".to_string()));
}

#[test]
fn next_then_previous_returns_to_the_track() {
    let mut p = playlist_of(&["a", "b", "c", "d"]);
    p.jump_to(1);
    p.next_track();
    p.previous();
    assert_eq!(p.current_index(), Some(1));
}

#[test]
fn shuffle_visits_every_track_once() {
    let mut p = playlist_of(&["a", "b", "c", "d", "e"]);
    p.set_shuffle(true);
    assert!(p.shuffle());
    let mut seen = Vec::new();
    while let Some(t) = p.next_track() {
        seen.push(t.clone());
    }
    // The first track of the shuffle order is where playback starts.
    assert_eq!(seen.len(), 4);
    seen.sort();
    seen.dedup();
    assert_eq!(seen.len(), 4);
    p.set_shuffle(false);
    assert!(!p.shuffle());
}

#[test]
fn remove_adjusts_current() {
    let mut p = playlist_of(&["a", "b", "c"]);
    p.jump_to(2);
    assert_eq!(p.remove(0), Some("a".to_string()));
    assert_eq!(p.current_index(), Some(1));
    assert_eq!(p.remove(1), Some("c".to_string()));
    assert_eq!(p.current_index(), None);
    assert_eq!(p.remove(5), None);
    assert_eq!(p.tracks(), &strings(&["b"])[..]);
}

#[test]
fn move_track_follows_current() {
    let mut p = playlist_of(&["a", "b", "c", "d"]);
    p.jump_to(2);
    assert!(p.move_track(0, 3));
    assert_eq!(p.tracks(), &strings(&["b", "c", "d", "a"])[..]);
    assert_eq!(p.current_index(), Some(1));
    assert!(p.move_track(1, 1));
    assert!(!p.move_track(0, 4));
    assert!(p.move_track(3, 0));
    assert_eq!(p.tracks(), &strings(&["a", "b", "c", "d"])[..]);
    assert_eq!(p.current_index(), Some(2));
}

#[test]
fn dedup_keeps_first_occurrences() {
    let mut p = playlist_of(&["a", "b", "a", "c", "b", "a"]);
    p.jump_to(3);
    assert_eq!(p.dedup(), 3);
    assert_eq!(p.tracks(), &strings(&["a", "b", "c"])[..]);
    assert_eq!(p.current_index(), Some(2));
    assert_eq!(p.dedup(), 0);

    let mut q = playlist_of(&["a", "a"]);
    q.jump_to(1);
    assert_eq!(q.dedup(), 1);
    assert_eq!(q.current_index(), None);
}

#[test]
fn find_index_finds_the_first() {
    let p = playlist_of(&["a", "b", "a"]);
    assert_eq!(p.find_index("a"), Some(0));
    assert_eq!(p.find_index("b"), Some(1));
    assert_eq!(p.find_index("z"), None);
}

#[test]
fn clear_and_jump() {
    let mut p = playlist_of(&["a", "b"]);
    assert_eq!(p.jump_to(1), Some(&"b".to_string()));
    assert_eq!(p.current(), Some(&"b".to_string()));
    assert_eq!(p.jump_to(2), None);
    assert_eq!(p.current_index(), Some(1));
    p.clear();
    assert!(p.is_empty());
    assert_eq!(p.current_index(), None);
}

#[test]
fn playlist_paths_under_the_data_directory() {
    let dir = Playlist::playlist_dir_in(Some("/home/me/.local/share")).unwrap();
    assert_eq!(dir, "/home/me/.local/share/horikawa/playlists");
    assert_eq!(Playlist::playlist_dir_in(None), None);
    let session = Playlist::session_file_in(Some("/data")).unwrap();
    assert_eq!(session, "/data/horikawa/playlists/.session");
}

#[test]
fn second_dedup_changes_nothing() {
    let mut p = playlist_of(&["x", "y", "x", "z", "y"]);
    p.jump_to(3);
    assert_eq!(p.dedup(), 2);
    let tracks = p.tracks().to_vec();
    let current = p.current_index();
    assert_eq!(current, Some(2));
    assert_eq!(p.dedup(), 0);
    assert_eq!(p.tracks(), &tracks[..]);
    assert_eq!(p.current_index(), current);
}

#[test]
fn shuffle_order_is_fisher_yates_of_the_draws() {
    assert_eq!(shuffle_order_from(4, &vec![0, 0, 0, 0]), vec![1, 2, 3, 0]);
    assert_eq!(shuffle_order_from(4, &vec![9, 5, 7, 3]), vec![0, 2, 1, 3]);
    assert_eq!(shuffle_order_from(3, &vec![0, 1, 2]), vec![0, 1, 2]);
    assert_eq!(shuffle_order_from(1, &vec![42]), vec![0]);
    assert_eq!(shuffle_order_from(0, &vec![]), Vec::<usize>::new());
}

#[test]
fn shuffle_position_starts_at_zero() {
    let mut p = playlist_of(&["a", "b", "c"]);
    p.set_shuffle(true);
    assert_eq!(p.shuffle_position(), 0);
}

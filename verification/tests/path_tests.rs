use horikawa::dir_playlist::DirectoryPlaylist;
use horikawa::library::LibraryScanner;
use horikawa::paths::{opt_paths_equal, paths_equal};
use horikawa::playlist::Playlist;

fn playlist_of(tracks: &[&str]) -> Playlist {
    let mut p = Playlist::new();
    p.add_many(tracks.iter().map(|t| t.to_string()).collect());
    p
}

#[test]
fn paths_compare_by_components() {
    assert!(paths_equal("/a/x", "/a//x"));
    assert!(paths_equal("/m/", "/m"));
    assert!(paths_equal("a/./b", "a/b"));
    assert!(!paths_equal("/a/x", "/a/y"));
    assert!(!paths_equal("a/../b", "b"));
    assert!(!paths_equal("/a", "a"));
    assert!(opt_paths_equal(None, None));
    assert!(opt_paths_equal(Some("/m"), Some("/m/")));
    assert!(!opt_paths_equal(Some("/m"), None));
}

#[test]
fn dedup_treats_equal_paths_as_one_track() {
    let mut p = playlist_of(&["/a/x", "/a//x", "/a/y"]);
    p.jump_to(1);
    assert_eq!(p.dedup(), 1);
    assert_eq!(p.tracks(), &["/a/x".to_string(), "/a/y".to_string()][..]);
    assert_eq!(p.current_index(), None);
    assert_eq!(p.dedup(), 0);
}

#[test]
fn find_index_finds_an_equal_path() {
    let p = playlist_of(&["/b", "/a//x"]);
    assert_eq!(p.find_index("/a/x"), Some(1));
    assert_eq!(p.find_index("/a/x/"), Some(1));
    assert_eq!(p.find_index("/a/z"), None);
}

#[test]
fn roots_are_a_set_of_paths() {
    let mut s = LibraryScanner::new();
    s.add_root("/m".to_string());
    s.add_root("/m/".to_string());
    assert_eq!(s.roots(), &["/m".to_string()][..]);
    assert!(s.remove_root("/m/"));
    assert!(s.roots().is_empty());
    assert!(!s.remove_root("/m"));
}

#[test]
fn a_directory_given_twice_is_scanned_once() {
    let d = DirectoryPlaylist { name: "x".to_string(), directories: vec!["/m".to_string(), "/m/".to_string(), "/n".to_string()] };
    let s = d.scan(&[true, true, true]).ok().unwrap();
    assert_eq!(s.roots(), &["/m".to_string(), "/n".to_string()][..]);
}

#[test]
fn playlist_directory_per_platform() {
    assert_eq!(
        Playlist::playlist_dir_on(false, Some("/home/me/.local/share")),
        Some("/home/me/.local/share/horikawa/playlists".to_string())
    );
    assert_eq!(Playlist::playlist_dir_on(true, Some("/music")), Some("/music/Horikawa".to_string()));
    assert_eq!(Playlist::playlist_dir_on(true, None), None);
}

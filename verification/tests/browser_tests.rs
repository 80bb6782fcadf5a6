use horikawa::browser::{EnterAction, FileBrowser, ListedItem};
use horikawa::dir_playlist::{DirPlaylistError, DirectoryPlaylist};
use horikawa::library::{find_cover_art, is_audio_file, is_network_path, LibraryScanner, ScanStep};
use horikawa::protocol::BrowserState;

fn item(path: &str, name: &str, is_dir: bool) -> ListedItem {
    ListedItem { path: path.to_string(), name: name.to_string(), is_dir }
}

fn items() -> Vec<ListedItem> {
    vec![
        item("/m/b.mp3", "b.mp3", false),
        item("/m/Zed", "Zed", true),
        item("/m/.hidden", ".hidden", true),
        item("/m/a.txt", "a.txt", false),
        item("/m/alpha", "alpha", true),
    ]
}

fn names(b: &FileBrowser) -> Vec<String> {
    b.visible_entries().into_iter().map(|e| e.name).collect()
}

#[test]
fn listing_puts_parent_then_dirs_then_files_sorted() {
    let b = FileBrowser::new("/m".to_string(), items());
    assert_eq!(names(&b), vec!["..", "alpha", "Zed", "b.mp3"]);
    assert_eq!(b.current_dir(), "/m");
    assert_eq!(b.selected_index(), 0);
    let entries = b.visible_entries();
    assert!(entries[3].is_audio);
    assert!(!entries[1].is_audio);
    assert!(entries[1].is_dir);
}

#[test]
fn hidden_entries_can_be_shown() {
    let mut b = FileBrowser::new("/m".to_string(), items());
    b.toggle_hidden(items());
    assert_eq!(names(&b), vec!["..", ".hidden", "alpha", "Zed", "b.mp3"]);
    b.toggle_hidden(items());
    assert_eq!(names(&b).len(), 4);
}

#[test]
fn selection_moves_and_enters() {
    let mut b = FileBrowser::new("/m".to_string(), items());
    b.select_next(3);
    assert_eq!(b.selected_index(), 1);
    match b.enter_selected() {
        EnterAction::Navigate(p) => assert_eq!(p, "/m/alpha"),
        _ => panic!("expected a directory"),
    }
    b.select_last(3);
    assert_eq!(b.selected_index(), 3);
    assert_eq!(b.scroll_offset(), 1);
    match b.enter_selected() {
        EnterAction::Open(p) => assert_eq!(p, "/m/b.mp3"),
        _ => panic!("expected a file"),
    }
    b.select_next(3);
    assert_eq!(b.selected_index(), 0);
    b.select_previous(3);
    assert_eq!(b.selected_index(), 3);
    b.select_first(3);
    assert_eq!(b.selected_index(), 0);
    assert_eq!(b.scroll_offset(), 0);
    assert_eq!(b.selected_entry().unwrap().name, "..");
}

#[test]
fn filter_is_case_insensitive_and_keeps_parent() {
    let mut b = FileBrowser::new("/m".to_string(), items());
    b.set_filter("ZE".to_string());
    assert_eq!(names(&b), vec!["..", "Zed"]);
    b.clear_filter();
    assert_eq!(names(&b).len(), 4);
}

#[test]
fn navigation_targets() {
    let mut b = FileBrowser::new("/m".to_string(), items());
    assert_eq!(b.go_up(), Some("/".to_string()));
    assert_eq!(b.navigate_target("sub"), "/m/sub");
    assert_eq!(b.navigate_target("/abs"), "/abs");
    b.navigate_to("/m/alpha".to_string(), vec![item("/m/alpha/x.ogg", "x.ogg", false)]);
    assert_eq!(b.current_dir(), "/m/alpha");
    assert_eq!(names(&b), vec!["..", "x.ogg"]);
    let root = FileBrowser::new("/".to_string(), vec![]);
    assert_eq!(root.go_up(), None);
    assert!(root.visible_entries().is_empty());
}

#[test]
fn audio_and_network_paths() {
    assert!(is_audio_file("/m/song.MP3"));
    assert!(is_audio_file("x.flac"));
    assert!(is_audio_file("x.alac"));
    assert!(!is_audio_file("x.txt"));
    assert!(!is_audio_file("mp3"));
    assert!(FileBrowser::is_audio_file("a.Opus"));
    assert!(LibraryScanner::is_audio_file("a.wma"));
    assert!(is_network_path("\\\\server\\share"));
    assert!(is_network_path("//server/share"));
    assert!(!is_network_path("/local/path"));
    assert!(!is_network_path("\\single"));
}

#[test]
fn scanner_roots_are_a_set() {
    let mut s = LibraryScanner::new();
    s.add_root("/a".to_string());
    s.add_root("/b".to_string());
    s.add_root("/a".to_string());
    assert_eq!(s.roots(), &["/a".to_string(), "/b".to_string()][..]);
    assert!(s.remove_root("/a"));
    assert!(!s.remove_root("/a"));
    assert_eq!(s.roots(), &["/b".to_string()][..]);
    assert!(LibraryScanner::default().roots().is_empty());
}

#[test]
fn scan_steps() {
    assert!(matches!(LibraryScanner::scan_step("/m/d".to_string(), true), ScanStep::Descend(p) if p == "/m/d"));
    assert!(matches!(LibraryScanner::scan_step("/m/x.mp3".to_string(), false), ScanStep::Found(p) if p == "/m/x.mp3"));
    assert!(matches!(LibraryScanner::scan_step("/m/x.jpg".to_string(), false), ScanStep::Skip));
}

#[test]
fn directory_playlist_scan_needs_every_directory() {
    let mut d = DirectoryPlaylist::new("mix".to_string(), "/m/a".to_string());
    d.directories.push("/m/b".to_string());
    d.directories.push("/m/a".to_string());
    match d.scan(&[true, true, true]) {
        Ok(s) => assert_eq!(s.roots(), &["/m/a".to_string(), "/m/b".to_string()][..]),
        Err(_) => panic!("all directories exist"),
    }
    match d.scan(&[true, false, true]) {
        Err(DirPlaylistError::DirNotFound(p)) => assert_eq!(p, "/m/b"),
        _ => panic!("expected the missing directory"),
    }
}

#[test]
fn browser_state_snapshot() {
    let s = BrowserState::new("/m".to_string(), items());
    let snap = s.to_snapshot();
    assert_eq!(snap.current_dir, "/m");
    let snap_names: Vec<String> = snap.entries.iter().map(|e| e.name.clone()).collect();
    assert_eq!(snap_names, vec!["..", "alpha", "Zed", "b.mp3"]);
    assert_eq!(snap.selected_index, 0);
    assert!(s.entry(3).unwrap().is_audio);
    assert!(s.entry(9).is_none());
}

#[test]
fn cover_art_prefers_art_names() {
    let files = vec![
        "/m/a/track.mp3".to_string(),
        "/m/a/scan.PNG".to_string(),
        "/m/a/Folder.jpg".to_string(),
        "/m/a/cover.gif".to_string(),
    ];
    assert_eq!(find_cover_art(&files), Some("/m/a/Folder.jpg".to_string()));
    let plain = vec!["/m/a/track.mp3".to_string(), "/m/a/scan.PNG".to_string(), "/m/a/x.bmp".to_string()];
    assert_eq!(find_cover_art(&plain), Some("/m/a/scan.PNG".to_string()));
    assert_eq!(find_cover_art(&vec!["/m/a/track.mp3".to_string(), "/m/a/notes.txt".to_string()]), None);
    assert_eq!(find_cover_art(&vec![]), None);
}

fn many_items(n: usize) -> Vec<ListedItem> {
    (0..n).map(|i| item(&format!("/m/f{:02}.mp3", i), &format!("f{:02}.mp3", i), false)).collect()
}

#[test]
fn selection_steps_stay_in_view() {
    let h = 4;
    let mut b = FileBrowser::new("/m".to_string(), many_items(9));
    let n = b.visible_entries().len();
    assert_eq!(n, 10);
    for step in 0..25 {
        let before = b.selected_index();
        if step % 3 == 2 {
            b.select_previous(h);
            assert_eq!(b.selected_index(), if before == 0 { n - 1 } else { before - 1 });
        } else {
            b.select_next(h);
            assert_eq!(b.selected_index(), (before + 1) % n);
        }
        let off = b.scroll_offset();
        assert!(off <= b.selected_index() && b.selected_index() < off + h);
        assert!(off + h <= n);
        assert_eq!(b.visible_entries().len(), n);
    }
}

#[test]
fn selection_with_tall_view_resets_offset() {
    let mut b = FileBrowser::new("/m".to_string(), items());
    b.select_next(usize::MAX);
    assert_eq!(b.selected_index(), 1);
    assert_eq!(b.scroll_offset(), 0);
    b.select_previous(usize::MAX);
    assert_eq!(b.selected_index(), 0);
    assert_eq!(b.scroll_offset(), 0);
}

#[test]
fn clearing_the_filter_restores_the_listing() {
    let mut b = FileBrowser::new("/m".to_string(), items());
    let all = names(&b);
    for f in ["ze", "mp3", "nothing-matches", ""] {
        b.set_filter(f.to_string());
        b.clear_filter();
        assert_eq!(names(&b), all);
        assert!(b.selected_index() < all.len());
        assert_eq!(b.current_dir(), "/m");
    }
}

#[test]
fn removing_a_root_keeps_the_others_in_order() {
    let mut s = LibraryScanner::new();
    for r in ["/a", "/b", "/c", "/d"] {
        s.add_root(r.to_string());
    }
    assert!(s.remove_root("/b"));
    assert_eq!(s.roots(), &["/a".to_string(), "/c".to_string(), "/d".to_string()][..]);
    let before = s.roots().to_vec();
    s.add_root("/e".to_string());
    assert!(s.remove_root("/e"));
    assert_eq!(s.roots(), &before[..]);
}

#[test]
fn navigation_only_moves_into_directories() {
    let mut b = FileBrowser::new("/m".to_string(), items());
    b.select_next(3);
    assert!(!b.navigate_if_dir("b.mp3", false, vec![]));
    assert_eq!(b.current_dir(), "/m");
    assert_eq!(b.selected_index(), 1);
    assert_eq!(names(&b), vec!["..", "alpha", "Zed", "b.mp3"]);
    assert!(b.navigate_if_dir("alpha", true, vec![item("/m/alpha/x.ogg", "x.ogg", false)]));
    assert_eq!(b.current_dir(), "/m/alpha");
    assert_eq!(b.selected_index(), 0);
    assert_eq!(b.scroll_offset(), 0);
    assert_eq!(names(&b), vec!["..", "x.ogg"]);
}

#[test]
fn equal_names_keep_their_order() {
    let b = FileBrowser::new(
        "/".to_string(),
        vec![item("/B.mp3", "B.mp3", false), item("/a.mp3", "a.mp3", false), item("/b.mp3", "b.mp3", false), item("/A.mp3", "A.mp3", false)],
    );
    assert_eq!(names(&b), vec!["a.mp3", "A.mp3", "B.mp3", "b.mp3"]);
}

#[test]
fn next_then_previous_returns() {
    let mut b = FileBrowser::new("/m".to_string(), items());
    for _ in 0..4 {
        let before = b.selected_index();
        b.select_next(2);
        b.select_previous(2);
        assert_eq!(b.selected_index(), before);
        b.select_next(2);
    }
}

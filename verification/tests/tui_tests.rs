use horikawa::browser::{FileBrowser, ListedItem};
use horikawa::input::{InputBuffer, InputMode};
use horikawa::persist::SessionState;
use horikawa::playlist::{Playlist, RepeatMode};
use horikawa::popup::{EditKey, PendingAction, PlaylistEntry};
use horikawa::tui::{
    clicked_index, global_key, handle_search_key, move_track_down, move_track_up, playlist_entries,
    playlist_select_next, playlist_select_previous, restore_session, selection_after_remove,
    popup_plan, rename_step, saved_m3u_message, session_last_loaded, title_for_path, view_jump,
    CommandLine, GlobalAction, NormalKey, PopupPlan, RenameStep,
};
use horikawa::tui::{
    dirpl_save_dir, follow_playing, last_loaded_after, m3u_saved_step, reload_plan, save_refusal,
    seek_status, view_after_command,
};
use horikawa::command::{Command, DirPlCmd};
use horikawa::player::PlaybackState;
use horikawa::view::ViewMode;

#[test]
fn title_for_path_truncates_utf8_safely() {
    let title = title_for_path("/run/media/eulgo/系统/Users/Eulgo/Documents/BaiduSyncdisk/music");
    assert!(title.starts_with(" ..."));
    assert!(title.ends_with(" "));
    assert!(title.contains("系统"));
}

#[test]
fn title_for_long_path_keeps_last_47_chars() {
    let title = title_for_path("/run/media/eulgo/系统/Users/Eulgo/Documents/BaiduSyncdisk/music");
    assert_eq!(title, " ...go/系统/Users/Eulgo/Documents/BaiduSyncdisk/music ");
}

#[test]
fn title_for_short_path_is_padded() {
    assert_eq!(title_for_path("/home/me/music"), " /home/me/music ");
    let fifty = "a".repeat(50);
    assert_eq!(title_for_path(&fifty), format!(" {} ", fifty));
    let fifty_one = "a".repeat(51);
    assert_eq!(title_for_path(&fifty_one), format!(" ...{} ", "a".repeat(47)));
}

#[test]
fn selection_moves_and_wraps() {
    assert_eq!(playlist_select_next(Some(0), 3), Some(1));
    assert_eq!(playlist_select_next(Some(2), 3), Some(0));
    assert_eq!(playlist_select_next(None, 3), Some(0));
    assert_eq!(playlist_select_next(Some(1), 0), Some(1));
    assert_eq!(playlist_select_previous(Some(0), 3), Some(2));
    assert_eq!(playlist_select_previous(Some(2), 3), Some(1));
    assert_eq!(playlist_select_previous(None, 3), Some(0));
    assert_eq!(playlist_select_previous(None, 0), None);
}

#[test]
fn selection_down_then_up_returns() {
    for len in 1..6usize {
        for i in 0..len {
            let down = playlist_select_next(Some(i), len);
            assert_eq!(playlist_select_previous(down, len), Some(i));
            let up = playlist_select_previous(Some(i), len);
            assert_eq!(playlist_select_next(up, len), Some(i));
        }
    }
}

#[test]
fn track_moves_stay_in_the_list() {
    assert_eq!(move_track_down(Some(0), 3), Some((0, 1)));
    assert_eq!(move_track_down(Some(2), 3), None);
    assert_eq!(move_track_down(Some(0), 0), None);
    assert_eq!(move_track_down(None, 3), None);
    assert_eq!(move_track_up(Some(2)), Some((2, 1)));
    assert_eq!(move_track_up(Some(0)), None);
    assert_eq!(move_track_up(None), None);
}

#[test]
fn selection_after_removing_a_track() {
    assert_eq!(selection_after_remove(0, 1), None);
    assert_eq!(selection_after_remove(0, 0), None);
    assert_eq!(selection_after_remove(2, 3), Some(1));
    assert_eq!(selection_after_remove(1, 3), Some(1));
    assert_eq!(selection_after_remove(7, 3), Some(1));
}

#[test]
fn session_name_prefixes() {
    assert_eq!(session_last_loaded("m3u:rock"), Some(PlaylistEntry::M3u("rock".to_string())));
    assert_eq!(session_last_loaded("dirpl:jazz"), Some(PlaylistEntry::DirPl("jazz".to_string())));
    assert_eq!(session_last_loaded("m3u:"), Some(PlaylistEntry::M3u(String::new())));
    assert_eq!(session_last_loaded("rock"), None);
    assert_eq!(session_last_loaded("M3U:rock"), None);
}

#[test]
fn restoring_a_session() {
    let mut p = Playlist::new();
    p.add_many(vec!["a".to_string(), "b".to_string(), "c".to_string()]);
    let s = SessionState {
        playlist_name: "m3u:x".to_string(),
        track_index: Some(2),
        shuffle: true,
        repeat: RepeatMode::All,
        volume_percent: 80,
    };
    restore_session(&mut p, &s);
    assert!(p.shuffle());
    assert_eq!(p.repeat(), RepeatMode::All);
    assert_eq!(p.current_index(), Some(2));
    assert_eq!(p.len(), 3);

    let mut q = Playlist::new();
    q.add("a".to_string());
    let far = SessionState { track_index: Some(5), ..s.clone() };
    restore_session(&mut q, &far);
    assert_eq!(q.current_index(), None);
}

#[test]
fn saved_playlist_entries_are_grouped_and_sorted() {
    let files: Vec<String> = vec![
        "/p/zeta.m3u".to_string(),
        "/p/_last.m3u".to_string(),
        "/p/work.horikawa".to_string(),
        "/p/alpha.m3u".to_string(),
        "/p/.session".to_string(),
        "/p/chill.horikawa".to_string(),
        "/p/notes.txt".to_string(),
    ];
    let entries = playlist_entries(&files);
    assert_eq!(
        entries,
        vec![
            PlaylistEntry::M3u("alpha".to_string()),
            PlaylistEntry::M3u("zeta".to_string()),
            PlaylistEntry::DirPl("chill".to_string()),
            PlaylistEntry::DirPl("work".to_string()),
        ]
    );
}

#[test]
fn view_jump_keys_toggle() {
    assert_eq!(view_jump(ViewMode::Playlist, 'b'), Some((ViewMode::Browser, false)));
    assert_eq!(view_jump(ViewMode::Browser, 'b'), Some((ViewMode::Playlist, false)));
    assert_eq!(view_jump(ViewMode::Playlist, 'p'), Some((ViewMode::Playlists, true)));
    assert_eq!(view_jump(ViewMode::Playlists, 'p'), Some((ViewMode::Playlist, false)));
    assert_eq!(view_jump(ViewMode::Browser, 'v'), Some((ViewMode::Visualizer, false)));
    assert_eq!(view_jump(ViewMode::Settings, 'i'), Some((ViewMode::TrackInfo, false)));
    assert_eq!(view_jump(ViewMode::Playlist, 'x'), None);
    for c in ['b', 'v', 'p', 'i'] {
        let (v, _) = view_jump(ViewMode::Settings, c).unwrap();
        assert_eq!(view_jump(v, c).unwrap().0, ViewMode::Playlist);
    }
}

#[test]
fn global_keys() {
    assert_eq!(global_key(ViewMode::Playlist, false, NormalKey::Char('/')), GlobalAction::EnterCommand);
    assert_eq!(
        global_key(ViewMode::Playlist, false, NormalKey::Tab),
        GlobalAction::SwitchView { view: ViewMode::Browser, refresh: false }
    );
    assert_eq!(
        global_key(ViewMode::Browser, false, NormalKey::Tab),
        GlobalAction::SwitchView { view: ViewMode::Playlists, refresh: true }
    );
    assert_eq!(
        global_key(ViewMode::Playlist, false, NormalKey::BackTab),
        GlobalAction::SwitchView { view: ViewMode::Settings, refresh: false }
    );
    assert_eq!(
        global_key(ViewMode::Browser, false, NormalKey::Char('?')),
        GlobalAction::SwitchView { view: ViewMode::Help, refresh: false }
    );
    assert_eq!(global_key(ViewMode::Browser, false, NormalKey::Char('H')), GlobalAction::ShowShortcuts);
    assert_eq!(
        global_key(ViewMode::Visualizer, true, NormalKey::Esc),
        GlobalAction::SwitchView { view: ViewMode::Playlist, refresh: false }
    );
    assert_eq!(global_key(ViewMode::Playlist, true, NormalKey::Esc), GlobalAction::LeaveEditMode);
    assert_eq!(global_key(ViewMode::Playlist, false, NormalKey::Esc), GlobalAction::ToView);
    assert_eq!(global_key(ViewMode::Playlist, false, NormalKey::Char('j')), GlobalAction::ToView);
}

fn command_line() -> CommandLine {
    CommandLine { input_mode: InputMode::Command, input_buffer: InputBuffer::new(), command_ghost: None }
}

#[test]
fn command_line_typing_and_enter() {
    let mut line = command_line();
    for c in "pa".chars() {
        assert_eq!(line.handle_command_key(EditKey::Char(c)), None);
    }
    assert_eq!(line.command_ghost, Some("use".to_string()));
    assert_eq!(line.input_buffer.content(), "pa");
    let cmd = line.handle_command_key(EditKey::Enter);
    assert_eq!(cmd, Some("pa".to_string()));
    assert_eq!(line.input_mode, InputMode::Normal);
    assert!(line.input_buffer.is_empty());
    assert_eq!(line.command_ghost, None);
}

#[test]
fn command_line_right_accepts_completion_word() {
    let mut line = command_line();
    for c in "qu".chars() {
        line.handle_command_key(EditKey::Char(c));
    }
    assert_eq!(line.command_ghost, Some("eue add <path>".to_string()));
    line.handle_command_key(EditKey::Right);
    assert_eq!(line.input_buffer.content(), "queue");
    line.handle_command_key(EditKey::Right);
    assert_eq!(line.input_buffer.content(), "queue add");
}

#[test]
fn command_line_escape_and_backspace_leave() {
    let mut line = command_line();
    line.handle_command_key(EditKey::Char('x'));
    assert_eq!(line.handle_command_key(EditKey::Esc), None);
    assert_eq!(line.input_mode, InputMode::Normal);
    assert!(line.input_buffer.is_empty());

    let mut line = command_line();
    line.handle_command_key(EditKey::Char('n'));
    line.handle_command_key(EditKey::Backspace);
    assert_eq!(line.input_mode, InputMode::Command);
    assert!(line.input_buffer.is_empty());
    line.handle_command_key(EditKey::Backspace);
    assert_eq!(line.input_mode, InputMode::Normal);
}

#[test]
fn command_line_cursor_keys() {
    let mut line = command_line();
    for c in "nxt".chars() {
        line.handle_command_key(EditKey::Char(c));
    }
    line.handle_command_key(EditKey::Left);
    line.handle_command_key(EditKey::Left);
    line.handle_command_key(EditKey::Delete);
    line.handle_command_key(EditKey::Char('e'));
    line.handle_command_key(EditKey::Char('x'));
    assert_eq!(line.input_buffer.content(), "next");
    line.handle_command_key(EditKey::Home);
    assert_eq!(line.input_buffer.cursor_char_pos(), 0);
    line.handle_command_key(EditKey::End);
    assert_eq!(line.input_buffer.cursor_char_pos(), 4);
}

fn listing() -> Vec<ListedItem> {
    vec![
        ListedItem { path: "/m/rock".to_string(), name: "rock".to_string(), is_dir: true },
        ListedItem { path: "/m/song.mp3".to_string(), name: "song.mp3".to_string(), is_dir: false },
        ListedItem { path: "/m/tune.flac".to_string(), name: "tune.flac".to_string(), is_dir: false },
    ]
}

#[test]
fn search_line_filters_the_browser() {
    let mut browser = FileBrowser::new("/m".to_string(), listing());
    let mut mode = InputMode::Search;
    let mut buffer = InputBuffer::new();
    handle_search_key(&mut mode, &mut buffer, &mut browser, EditKey::Char('t'));
    handle_search_key(&mut mode, &mut buffer, &mut browser, EditKey::Char('u'));
    let names: Vec<String> = browser.visible_entries().into_iter().map(|e| e.name).collect();
    assert_eq!(names, vec!["..".to_string(), "tune.flac".to_string()]);
    handle_search_key(&mut mode, &mut buffer, &mut browser, EditKey::Enter);
    assert_eq!(mode, InputMode::Normal);
    assert!(buffer.is_empty());
    assert_eq!(browser.visible_entries().len(), 2);

    let mut mode = InputMode::Search;
    handle_search_key(&mut mode, &mut buffer, &mut browser, EditKey::Esc);
    assert_eq!(mode, InputMode::Normal);
    assert_eq!(browser.visible_entries().len(), 4);
}

#[test]
fn mouse_clicks_map_to_rows() {
    // A list at (0, 2), 40 wide and 10 high, scrolled by 5.
    assert_eq!(clicked_index(0, 2, 40, 10, 5, 3, 3, 100), Some(5));
    assert_eq!(clicked_index(0, 2, 40, 10, 5, 3, 10, 100), Some(12));
    assert_eq!(clicked_index(0, 2, 40, 10, 5, 3, 11, 100), None);
    assert_eq!(clicked_index(0, 2, 40, 10, 5, 0, 3, 100), None);
    assert_eq!(clicked_index(0, 2, 40, 10, 5, 39, 3, 100), None);
    assert_eq!(clicked_index(0, 2, 40, 10, 5, 3, 3, 5), None);
}

#[test]
fn confirmed_popups() {
    use_popup_plans();
}

fn use_popup_plans() {
    match popup_plan(PendingAction::SaveM3uFromBrowser("/m/jazz".to_string()), None) {
        PopupPlan::SaveScannedM3u { dir, name } => {
            assert_eq!(dir, "/m/jazz");
            assert_eq!(name, "untitled");
        }
        _ => panic!("expected a scan-and-save"),
    }
    match popup_plan(PendingAction::SaveM3uFromPlaylist, Some("mix".to_string())) {
        PopupPlan::SaveQueueM3u { name } => assert_eq!(name, "mix"),
        _ => panic!("expected a save"),
    }
    let entry = PlaylistEntry::M3u("old".to_string());
    assert!(matches!(popup_plan(PendingAction::RenamePlaylist(entry.clone()), Some(String::new())), PopupPlan::RenameCancelled));
    assert!(matches!(popup_plan(PendingAction::RenamePlaylist(entry.clone()), None), PopupPlan::RenameCancelled));
    match popup_plan(PendingAction::RenamePlaylist(entry.clone()), Some("new".to_string())) {
        PopupPlan::Rename { entry: e, name } => {
            assert_eq!(e, entry);
            assert_eq!(name, "new");
        }
        _ => panic!("expected a rename"),
    }
    assert!(matches!(popup_plan(PendingAction::NoAction, None), PopupPlan::Nothing));
    assert_eq!(saved_m3u_message("mix", 12), "Saved M3U playlist: mix (12 tracks)");
    assert_eq!(rename_step(true, false), RenameStep::Rename);
    assert_eq!(rename_step(true, true), RenameStep::AlreadyExists);
    assert_eq!(rename_step(false, false), RenameStep::Nothing);
}

#[test]
fn reload_picks_the_last_loaded_playlist() {
    let (e, m) = reload_plan(&Some(PlaylistEntry::M3u("mix".to_string())));
    assert_eq!(e, Some(PlaylistEntry::M3u("mix".to_string())));
    assert_eq!(m, "Reloaded playlist: mix");
    let (e, m) = reload_plan(&Some(PlaylistEntry::DirPl("albums".to_string())));
    assert_eq!(e, Some(PlaylistEntry::DirPl("albums".to_string())));
    assert_eq!(m, "Reloaded directory playlist: albums");
    let (e, m) = reload_plan(&None);
    assert_eq!(e, None);
    assert_eq!(m, "Nothing to reload");
}

#[test]
fn loading_remembers_the_playlist() {
    let before = Some(PlaylistEntry::DirPl("old".to_string()));
    assert_eq!(
        last_loaded_after(&Command::Load { name: "a".to_string() }, before.clone()),
        Some(PlaylistEntry::M3u("a".to_string()))
    );
    assert_eq!(
        last_loaded_after(&Command::DirPl { sub: DirPlCmd::Load { name: "b".to_string() } }, None),
        Some(PlaylistEntry::DirPl("b".to_string()))
    );
    assert_eq!(last_loaded_after(&Command::Play, before.clone()), before);
    assert_eq!(last_loaded_after(&Command::Save { name: "c".to_string() }, None), None);
}

#[test]
fn dirpl_save_defaults_to_the_current_directory() {
    assert_eq!(dirpl_save_dir(Some("/x".to_string()), "/cur"), "/x");
    assert_eq!(dirpl_save_dir(None, "/cur"), "/cur");
}

#[test]
fn saving_refuses_nothing_to_save() {
    assert_eq!(save_refusal(true, 0), Some("No audio files found in directory".to_string()));
    assert_eq!(save_refusal(false, 0), Some("Playlist is empty".to_string()));
    assert_eq!(save_refusal(true, 3), None);
    assert_eq!(save_refusal(false, 1), None);
}

#[test]
fn after_saving_an_m3u() {
    let s = m3u_saved_step(false, "mix", 4, Some(Ok(())));
    assert!(s.remember);
    assert_eq!(s.status, Some("Saved M3U playlist: mix (4 tracks)".to_string()));
    let s = m3u_saved_step(false, "mix", 4, Some(Err("disk full".to_string())));
    assert!(!s.remember);
    assert_eq!(s.status, Some("Save error: disk full".to_string()));
    let s = m3u_saved_step(true, "mix", 4, Some(Err("disk full".to_string())));
    assert!(s.remember);
    let s = m3u_saved_step(true, "mix", 4, None);
    assert!(s.remember);
    assert_eq!(s.status, None);
    let s = m3u_saved_step(false, "mix", 2, None);
    assert_eq!(s.status, Some("Saved M3U playlist: mix (2 tracks)".to_string()));
}

#[test]
fn the_view_follows_a_new_playing_track() {
    assert!(follow_playing(true, PlaybackState::Playing, Some("/a"), Some("/b")));
    assert!(!follow_playing(true, PlaybackState::Playing, Some("/a"), Some("/a/")));
    assert!(!follow_playing(true, PlaybackState::Paused, Some("/a"), Some("/b")));
    assert!(!follow_playing(false, PlaybackState::Playing, None, Some("/b")));
    assert!(follow_playing(true, PlaybackState::Playing, None, Some("/b")));
}

#[test]
fn clicks_on_an_empty_area_land_nowhere() {
    assert_eq!(clicked_index(0, 0, 0, 0, 0, 0, 0, 10), None);
    assert_eq!(clicked_index(0, 0, 1, 5, 0, 0, 3, 10), None);
}

#[test]
fn seek_status_reads_minutes_and_seconds() {
    assert_eq!(seek_status(90), "Seeking to 1:30");
    assert_eq!(seek_status(5), "Seeking to 0:05");
    assert_eq!(seek_status(3600), "Seeking to 60:00");
}

#[test]
fn commands_switch_views() {
    assert_eq!(view_after_command(&Command::Home, ViewMode::Playlist), ViewMode::Browser);
    assert_eq!(view_after_command(&Command::Goto { path: "/x".to_string() }, ViewMode::Help), ViewMode::Browser);
    assert_eq!(view_after_command(&Command::Search { term: "a".to_string() }, ViewMode::Playlist), ViewMode::Browser);
    assert_eq!(view_after_command(&Command::Help, ViewMode::Browser), ViewMode::Help);
    assert_eq!(view_after_command(&Command::Play, ViewMode::TrackInfo), ViewMode::TrackInfo);
}

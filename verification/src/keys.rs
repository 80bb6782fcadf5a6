//! What the keys do in each view of the terminal interface. Each handler
//! turns a key press into an action; carrying the action out (talking
//! to the player, opening popups, redrawing) is left to the caller.

use vstd::prelude::*;
use crate::browser::{BrowserEntry, EntryModel};
use crate::paths::{opt_str_view, path_file_name, path_parent, spec_file_name, spec_parent};
use crate::popup::PlaylistEntry;
use crate::tui::{view_jump, view_jump_spec};
use crate::text::eq_str;
use crate::view::ViewMode;

verus! {

broadcast use vstd::string::group_string_axioms;

/// A key of the terminal.
#[derive(Debug, Clone, Copy, PartialEq, Eq, Structural)]
pub enum Key {
    Char(char),
    Up,
    Down,
    Left,
    Right,
    Enter,
    Esc,
    Backspace,
    Home,
    End,
    PageUp,
    PageDown,
    /// Any other key.
    Other,
}

/// A key press: the key and the modifiers held with it.
#[derive(Debug, Clone, Copy, PartialEq, Eq, Structural)]
pub struct KeyPress {
    pub key: Key,
    pub ctrl: bool,
    pub shift: bool,
}

// ---------------------------------------------------------------------
// Playback keys shared by the views
// ---------------------------------------------------------------------

/// What a shared playback key does.
#[derive(Debug, Clone, Copy, PartialEq, Eq, Structural)]
pub enum PlaybackAction {
    /// Play or pause.
    TogglePlayback,
    /// Raise the volume by five percent, up to 150%.
    VolumeUp,
    /// Lower the volume by five percent, down to zero.
    VolumeDown,
    /// Mute, or unmute to full volume.
    ToggleMute,
    /// Seek ten seconds forward, if that is before the end.
    SeekForward,
    /// Seek ten seconds back, stopping at the start.
    SeekBackward,
    /// Play the previous track.
    Previous,
    /// Play the next track.
    Next,
}

/// The playback keys: Space, `+`/`=`, `-`/`_`, `m`, Ctrl with `h`/`l` or
/// the arrows to seek, and `h`/`l` or the arrows for the previous and
/// next track.
pub open spec fn playback_key_spec(p: KeyPress) -> Option<PlaybackAction> {
    match p.key {
        Key::Char(' ') => Some(PlaybackAction::TogglePlayback),
        Key::Char('+') | Key::Char('=') => Some(PlaybackAction::VolumeUp),
        Key::Char('-') | Key::Char('_') => Some(PlaybackAction::VolumeDown),
        Key::Char('m') => Some(PlaybackAction::ToggleMute),
        Key::Char('l') | Key::Right => if p.ctrl {
            Some(PlaybackAction::SeekForward)
        } else {
            Some(PlaybackAction::Next)
        },
        Key::Char('h') | Key::Left => if p.ctrl {
            Some(PlaybackAction::SeekBackward)
        } else {
            Some(PlaybackAction::Previous)
        },
        _ => None,
    }
}

/// The shared playback keys; `None` for any other key.
pub fn playback_key(p: KeyPress) -> (r: Option<PlaybackAction>)
    ensures
        r == playback_key_spec(p),
{
    match p.key {
        Key::Char(' ') => Some(PlaybackAction::TogglePlayback),
        Key::Char('+') | Key::Char('=') => Some(PlaybackAction::VolumeUp),
        Key::Char('-') | Key::Char('_') => Some(PlaybackAction::VolumeDown),
        Key::Char('m') => Some(PlaybackAction::ToggleMute),
        Key::Char('l') | Key::Right => if p.ctrl {
            Some(PlaybackAction::SeekForward)
        } else {
            Some(PlaybackAction::Next)
        },
        Key::Char('h') | Key::Left => if p.ctrl {
            Some(PlaybackAction::SeekBackward)
        } else {
            Some(PlaybackAction::Previous)
        },
        _ => None,
    }
}

/// The view a view-switch key leads to from `view`, if `k` is one.
pub open spec fn jump_action(view: ViewMode, k: Key) -> Option<ViewMode> {
    match k {
        Key::Char(c) => view_jump_spec(view, c),
        _ => None,
    }
}

/// The view-switch key of a key press from `view`: the new view, and
/// whether the saved playlists are to be listed again.
fn jump_key(view: ViewMode, k: Key) -> (r: Option<(ViewMode, bool)>)
    ensures
        match r {
            Some((v, refresh)) => jump_action(view, k) == Some(v) && refresh == (v
                == ViewMode::Playlists),
            None => jump_action(view, k) is None,
        },
{
    match k {
        Key::Char(c) => view_jump(view, c),
        _ => None,
    }
}

// ---------------------------------------------------------------------
// The playlist view
// ---------------------------------------------------------------------

/// What a key does in the playlist view.
#[derive(Debug, Clone, Copy, PartialEq, Eq, Structural)]
pub enum PlaylistViewAction {
    /// Switch to another view (refreshing the saved playlists first when
    /// `refresh` is set).
    SwitchView { view: ViewMode, refresh: bool },
    Quit,
    /// Pause or resume; when stopped, play the selected track.
    PlayPause,
    /// Ask for a name and save the playlist as M3U.
    SavePrompt,
    ToggleEditMode,
    SelectPrevious,
    SelectNext,
    /// Move the selected track one place down (edit mode).
    MoveDown,
    /// Move the selected track one place up (edit mode).
    MoveUp,
    /// Remove the selected track (edit mode).
    DeleteSelected,
    PlaySelected,
    Playback(PlaybackAction),
    /// Empty the playlist (edit mode).
    ClearPlaylist,
    /// Load the last loaded playlist again.
    Reload,
    CycleRepeat,
    ToggleShuffle,
    ShowTrackInfo,
    SelectFirst,
    SelectLast,
    Nothing,
}

/// The keys of the playlist view, in the order they are tried.
pub open spec fn playlist_view_key_spec(p: KeyPress, edit_mode: bool) -> PlaylistViewAction {
    let k = p.key;
    if jump_action(ViewMode::Playlist, k) is Some {
        let v = jump_action(ViewMode::Playlist, k)->0;
        PlaylistViewAction::SwitchView { view: v, refresh: v == ViewMode::Playlists }
    } else if k == Key::Char('q') {
        PlaylistViewAction::Quit
    } else if k == Key::Char(' ') {
        PlaylistViewAction::PlayPause
    } else if k == Key::Char('s') && !edit_mode {
        PlaylistViewAction::SavePrompt
    } else if k == Key::Char('e') {
        PlaylistViewAction::ToggleEditMode
    } else if k == Key::Up || k == Key::Char('k') {
        PlaylistViewAction::SelectPrevious
    } else if k == Key::Down || k == Key::Char('j') {
        PlaylistViewAction::SelectNext
    } else if k == Key::Char('J') && edit_mode && p.shift {
        PlaylistViewAction::MoveDown
    } else if k == Key::Char('K') && edit_mode && p.shift {
        PlaylistViewAction::MoveUp
    } else if k == Key::Char('d') && edit_mode {
        PlaylistViewAction::DeleteSelected
    } else if k == Key::Enter {
        PlaylistViewAction::PlaySelected
    } else if playback_key_spec(p) is Some {
        PlaylistViewAction::Playback(playback_key_spec(p)->0)
    } else if k == Key::Char('c') && edit_mode {
        PlaylistViewAction::ClearPlaylist
    } else if k == Key::Char('R') {
        PlaylistViewAction::Reload
    } else if k == Key::Char('r') {
        PlaylistViewAction::CycleRepeat
    } else if k == Key::Char('S') {
        PlaylistViewAction::ToggleShuffle
    } else if k == Key::Char('i') {
        PlaylistViewAction::ShowTrackInfo
    } else if k == Key::Home || k == Key::Char('g') {
        PlaylistViewAction::SelectFirst
    } else if k == Key::End || k == Key::Char('G') {
        PlaylistViewAction::SelectLast
    } else {
        PlaylistViewAction::Nothing
    }
}

/// Handles a key in the playlist view.
pub fn playlist_view_key(p: KeyPress, edit_mode: bool) -> (r: PlaylistViewAction)
    ensures
        r == playlist_view_key_spec(p, edit_mode),
{
    let k = p.key;
    if let Some((view, refresh)) = jump_key(ViewMode::Playlist, k) {
        return PlaylistViewAction::SwitchView { view, refresh };
    }
    if k == Key::Char('q') {
        PlaylistViewAction::Quit
    } else if k == Key::Char(' ') {
        PlaylistViewAction::PlayPause
    } else if k == Key::Char('s') && !edit_mode {
        PlaylistViewAction::SavePrompt
    } else if k == Key::Char('e') {
        PlaylistViewAction::ToggleEditMode
    } else if k == Key::Up || k == Key::Char('k') {
        PlaylistViewAction::SelectPrevious
    } else if k == Key::Down || k == Key::Char('j') {
        PlaylistViewAction::SelectNext
    } else if k == Key::Char('J') && edit_mode && p.shift {
        PlaylistViewAction::MoveDown
    } else if k == Key::Char('K') && edit_mode && p.shift {
        PlaylistViewAction::MoveUp
    } else if k == Key::Char('d') && edit_mode {
        PlaylistViewAction::DeleteSelected
    } else if k == Key::Enter {
        PlaylistViewAction::PlaySelected
    } else if let Some(a) = playback_key(p) {
        PlaylistViewAction::Playback(a)
    } else if k == Key::Char('c') && edit_mode {
        PlaylistViewAction::ClearPlaylist
    } else if k == Key::Char('R') {
        PlaylistViewAction::Reload
    } else if k == Key::Char('r') {
        PlaylistViewAction::CycleRepeat
    } else if k == Key::Char('S') {
        PlaylistViewAction::ToggleShuffle
    } else if k == Key::Char('i') {
        PlaylistViewAction::ShowTrackInfo
    } else if k == Key::Home || k == Key::Char('g') {
        PlaylistViewAction::SelectFirst
    } else if k == Key::End || k == Key::Char('G') {
        PlaylistViewAction::SelectLast
    } else {
        PlaylistViewAction::Nothing
    }
}

// ---------------------------------------------------------------------
// The browser view
// ---------------------------------------------------------------------

/// What a key does in the browser view.
#[derive(Debug, Clone, Copy, PartialEq, Eq, Structural)]
pub enum BrowserViewAction {
    SwitchView { view: ViewMode, refresh: bool },
    Quit,
    ToPlaylist,
    SelectPrevious,
    SelectNext,
    /// Enter the selected directory, or play the selected file.
    EnterSelected,
    GoUp,
    /// Add the selected entry to the playlist.
    AddSelected,
    /// Ask for a name and save the selected directory as M3U.
    SaveM3u,
    /// Ask for a name and save the selected directory as a directory
    /// playlist.
    SaveDirPlaylist,
    Refresh,
    ToggleHidden,
    SelectFirst,
    SelectLast,
    GoHome,
    Nothing,
}

/// The keys of the browser view, in the order they are tried.
pub open spec fn browser_view_key_spec(k: Key) -> BrowserViewAction {
    if jump_action(ViewMode::Browser, k) is Some {
        let v = jump_action(ViewMode::Browser, k)->0;
        BrowserViewAction::SwitchView { view: v, refresh: v == ViewMode::Playlists }
    } else if k == Key::Char('q') {
        BrowserViewAction::Quit
    } else if k == Key::Esc {
        BrowserViewAction::ToPlaylist
    } else if k == Key::Up || k == Key::Char('k') {
        BrowserViewAction::SelectPrevious
    } else if k == Key::Down || k == Key::Char('j') {
        BrowserViewAction::SelectNext
    } else if k == Key::Enter || k == Key::Char('l') || k == Key::Right {
        BrowserViewAction::EnterSelected
    } else if k == Key::Backspace || k == Key::Char('h') || k == Key::Left {
        BrowserViewAction::GoUp
    } else if k == Key::Char('a') {
        BrowserViewAction::AddSelected
    } else if k == Key::Char('s') {
        BrowserViewAction::SaveM3u
    } else if k == Key::Char('S') {
        BrowserViewAction::SaveDirPlaylist
    } else if k == Key::Char('R') {
        BrowserViewAction::Refresh
    } else if k == Key::Char('.') {
        BrowserViewAction::ToggleHidden
    } else if k == Key::Home || k == Key::Char('g') {
        BrowserViewAction::SelectFirst
    } else if k == Key::End || k == Key::Char('G') {
        BrowserViewAction::SelectLast
    } else if k == Key::Char('~') {
        BrowserViewAction::GoHome
    } else {
        BrowserViewAction::Nothing
    }
}

/// Handles a key in the browser view.
pub fn browser_view_key(k: Key) -> (r: BrowserViewAction)
    ensures
        r == browser_view_key_spec(k),
{
    if let Some((view, refresh)) = jump_key(ViewMode::Browser, k) {
        return BrowserViewAction::SwitchView { view, refresh };
    }
    if k == Key::Char('q') {
        BrowserViewAction::Quit
    } else if k == Key::Esc {
        BrowserViewAction::ToPlaylist
    } else if k == Key::Up || k == Key::Char('k') {
        BrowserViewAction::SelectPrevious
    } else if k == Key::Down || k == Key::Char('j') {
        BrowserViewAction::SelectNext
    } else if k == Key::Enter || k == Key::Char('l') || k == Key::Right {
        BrowserViewAction::EnterSelected
    } else if k == Key::Backspace || k == Key::Char('h') || k == Key::Left {
        BrowserViewAction::GoUp
    } else if k == Key::Char('a') {
        BrowserViewAction::AddSelected
    } else if k == Key::Char('s') {
        BrowserViewAction::SaveM3u
    } else if k == Key::Char('S') {
        BrowserViewAction::SaveDirPlaylist
    } else if k == Key::Char('R') {
        BrowserViewAction::Refresh
    } else if k == Key::Char('.') {
        BrowserViewAction::ToggleHidden
    } else if k == Key::Home || k == Key::Char('g') {
        BrowserViewAction::SelectFirst
    } else if k == Key::End || k == Key::Char('G') {
        BrowserViewAction::SelectLast
    } else if k == Key::Char('~') {
        BrowserViewAction::GoHome
    } else {
        BrowserViewAction::Nothing
    }
}

/// What adding a browser entry adds: a directory other than the parent
/// entry, or an audio file; nothing otherwise.
pub fn add_target(entry: &BrowserEntry) -> (r: Option<String>)
    ensures
        opt_str_view(r) == if (entry.is_dir && entry.name@ != ".."@) || entry.is_audio {
            Some(entry.path@)
        } else {
            None
        },
{
    let name = crate::text::str_chars(entry.name.as_str());
    let dotdot = eq_str(&name, "..");
    if (entry.is_dir && !dotdot) || entry.is_audio {
        Some(entry.path.clone())
    } else {
        None
    }
}

/// What saving a browser entry as a playlist saves: a directory is saved
/// under its own name; for a file, its directory is saved under that
/// directory's name; the parent entry cannot be saved.
pub open spec fn save_target_spec(e: EntryModel) -> Option<(Seq<char>, Seq<char>)> {
    if e.is_dir && e.name != ".."@ {
        Some((e.path, e.name))
    } else if e.name == ".."@ {
        None
    } else {
        match spec_parent(e.path) {
            Some(parent) => Some((
                parent,
                match spec_file_name(parent) {
                    Some(n) => n,
                    None => e.name,
                },
            )),
            None => Some((e.path, e.name)),
        }
    }
}

/// The directory to save for the selected browser entry and the name to
/// offer for it; `None` for the parent entry.
pub fn save_target(entry: &BrowserEntry) -> (r: Option<(String, String)>)
    ensures
        match r {
            Some((d, n)) => save_target_spec(entry@) == Some((d@, n@)),
            None => save_target_spec(entry@) is None,
        },
{
    let name = crate::text::str_chars(entry.name.as_str());
    let dotdot = eq_str(&name, "..");
    if entry.is_dir && !dotdot {
        Some((entry.path.clone(), entry.name.clone()))
    } else if dotdot {
        None
    } else {
        match path_parent(entry.path.as_str()) {
            Some(parent) => {
                let default_name = match path_file_name(parent.as_str()) {
                    Some(n) => n,
                    None => entry.name.clone(),
                };
                Some((parent, default_name))
            },
            None => Some((entry.path.clone(), entry.name.clone())),
        }
    }
}

// ---------------------------------------------------------------------
// The saved-playlists view
// ---------------------------------------------------------------------

/// Which kind of saved playlist an entry is, and its name.
pub open spec fn entry_view(e: PlaylistEntry) -> (bool, Seq<char>) {
    match e {
        PlaylistEntry::M3u(n) => (true, n@),
        PlaylistEntry::DirPl(n) => (false, n@),
    }
}

/// A copy of a saved-playlist entry.
fn copy_entry(e: &PlaylistEntry) -> (r: PlaylistEntry)
    ensures
        entry_view(r) == entry_view(*e),
{
    match e {
        PlaylistEntry::M3u(n) => PlaylistEntry::M3u(n.clone()),
        PlaylistEntry::DirPl(n) => PlaylistEntry::DirPl(n.clone()),
    }
}

/// What a key does in the saved-playlists view.
pub enum PlaylistsViewAction {
    SwitchView { view: ViewMode, refresh: bool },
    Quit,
    ToPlaylist,
    /// Move the selection to this entry.
    Select(usize),
    /// Load this playlist and return to the playlist view.
    Load(PlaylistEntry),
    /// Ask whether to delete this playlist.
    DeletePrompt(PlaylistEntry),
    /// Ask for a new name for this playlist.
    RenamePrompt(PlaylistEntry),
    Playback(PlaybackAction),
    Nothing,
}

/// Handles a key in the saved-playlists view, whose entries are
/// `entries` with `selected` selected. Up and Down move the selection,
/// wrapping around; Enter loads, `d` deletes and `r` renames the
/// selected playlist.
pub fn playlists_view_key(p: KeyPress, entries: &Vec<PlaylistEntry>, selected: usize) -> (r: PlaylistsViewAction)
    requires
        selected < usize::MAX,
    ensures
        ({
            let k = p.key;
            let n = entries@.len();
            let sel_entry = if selected < n {
                Some(entry_view(entries@[selected as int]))
            } else {
                None
            };
            if jump_action(ViewMode::Playlists, k) is Some {
                r matches PlaylistsViewAction::SwitchView { view, refresh } && view == jump_action(
                    ViewMode::Playlists,
                    k,
                )->0 && refresh == (view == ViewMode::Playlists)
            } else if k == Key::Char('q') {
                r is Quit
            } else if k == Key::Esc {
                r is ToPlaylist
            } else if k == Key::Up || k == Key::Char('k') {
                if n > 0 {
                    r matches PlaylistsViewAction::Select(i) && i == if selected == 0 {
                        n - 1
                    } else {
                        selected - 1
                    }
                } else {
                    r is Nothing
                }
            } else if k == Key::Down || k == Key::Char('j') {
                if n > 0 {
                    r matches PlaylistsViewAction::Select(i) && i == (selected + 1) % (n as int)
                } else {
                    r is Nothing
                }
            } else if k == Key::Enter {
                match sel_entry {
                    Some(e) => r matches PlaylistsViewAction::Load(x) && entry_view(x) == e,
                    None => r is Nothing,
                }
            } else if k == Key::Char('d') {
                match sel_entry {
                    Some(e) => r matches PlaylistsViewAction::DeletePrompt(x) && entry_view(x) == e,
                    None => r is Nothing,
                }
            } else if k == Key::Char('r') {
                match sel_entry {
                    Some(e) => r matches PlaylistsViewAction::RenamePrompt(x) && entry_view(x) == e,
                    None => r is Nothing,
                }
            } else if playback_key_spec(p) is Some {
                r matches PlaylistsViewAction::Playback(a) && a == playback_key_spec(p)->0
            } else {
                r is Nothing
            }
        }),
{
    let k = p.key;
    if let Some((view, refresh)) = jump_key(ViewMode::Playlists, k) {
        return PlaylistsViewAction::SwitchView { view, refresh };
    }
    let n = entries.len();
    if k == Key::Char('q') {
        PlaylistsViewAction::Quit
    } else if k == Key::Esc {
        PlaylistsViewAction::ToPlaylist
    } else if k == Key::Up || k == Key::Char('k') {
        if n > 0 {
            PlaylistsViewAction::Select(if selected == 0 { n - 1 } else { selected - 1 })
        } else {
            PlaylistsViewAction::Nothing
        }
    } else if k == Key::Down || k == Key::Char('j') {
        if n > 0 {
            PlaylistsViewAction::Select((selected + 1) % n)
        } else {
            PlaylistsViewAction::Nothing
        }
    } else if k == Key::Enter {
        if selected < n {
            PlaylistsViewAction::Load(copy_entry(&entries[selected]))
        } else {
            PlaylistsViewAction::Nothing
        }
    } else if k == Key::Char('d') {
        if selected < n {
            PlaylistsViewAction::DeletePrompt(copy_entry(&entries[selected]))
        } else {
            PlaylistsViewAction::Nothing
        }
    } else if k == Key::Char('r') {
        if selected < n {
            PlaylistsViewAction::RenamePrompt(copy_entry(&entries[selected]))
        } else {
            PlaylistsViewAction::Nothing
        }
    } else if let Some(a) = playback_key(p) {
        PlaylistsViewAction::Playback(a)
    } else {
        PlaylistsViewAction::Nothing
    }
}

// ---------------------------------------------------------------------
// The settings, visualizer, track-info and help views
// ---------------------------------------------------------------------

/// What a key does in the settings view.
#[derive(Debug, Clone, Copy, PartialEq, Eq, Structural)]
pub enum SettingsViewAction {
    Quit,
    ToPlaylist,
    /// Move the selection to this setting.
    Select(usize),
    /// Turn the Discord presence on or off.
    ToggleDiscord,
    /// Turn the system media controls on or off.
    ToggleMediaControls,
    Playback(PlaybackAction),
    Nothing,
}

/// The keys of the settings view, whose two settings (Discord presence,
/// media controls) are listed with `selected` selected.
pub open spec fn settings_view_key_spec(p: KeyPress, selected: usize) -> SettingsViewAction {
    let k = p.key;
    if k == Key::Char('q') {
        SettingsViewAction::Quit
    } else if k == Key::Esc {
        SettingsViewAction::ToPlaylist
    } else if k == Key::Up || k == Key::Char('k') {
        if selected > 0 {
            SettingsViewAction::Select((selected - 1) as usize)
        } else {
            SettingsViewAction::Nothing
        }
    } else if k == Key::Down || k == Key::Char('j') {
        if selected < 1 {
            SettingsViewAction::Select((selected + 1) as usize)
        } else {
            SettingsViewAction::Nothing
        }
    } else if k == Key::Enter {
        if selected == 0 {
            SettingsViewAction::ToggleDiscord
        } else if selected == 1 {
            SettingsViewAction::ToggleMediaControls
        } else {
            SettingsViewAction::Nothing
        }
    } else if playback_key_spec(p) is Some {
        SettingsViewAction::Playback(playback_key_spec(p)->0)
    } else {
        SettingsViewAction::Nothing
    }
}

/// Handles a key in the settings view.
pub fn settings_view_key(p: KeyPress, selected: usize) -> (r: SettingsViewAction)
    ensures
        r == settings_view_key_spec(p, selected),
{
    let k = p.key;
    if k == Key::Char('q') {
        SettingsViewAction::Quit
    } else if k == Key::Esc {
        SettingsViewAction::ToPlaylist
    } else if k == Key::Up || k == Key::Char('k') {
        if selected > 0 {
            SettingsViewAction::Select(selected - 1)
        } else {
            SettingsViewAction::Nothing
        }
    } else if k == Key::Down || k == Key::Char('j') {
        if selected < 1 {
            SettingsViewAction::Select(selected + 1)
        } else {
            SettingsViewAction::Nothing
        }
    } else if k == Key::Enter {
        if selected == 0 {
            SettingsViewAction::ToggleDiscord
        } else if selected == 1 {
            SettingsViewAction::ToggleMediaControls
        } else {
            SettingsViewAction::Nothing
        }
    } else if let Some(a) = playback_key(p) {
        SettingsViewAction::Playback(a)
    } else {
        SettingsViewAction::Nothing
    }
}

/// What a key does in the visualizer and track-info views.
#[derive(Debug, Clone, Copy, PartialEq, Eq, Structural)]
pub enum DisplayViewAction {
    SwitchView { view: ViewMode, refresh: bool },
    Quit,
    ToPlaylist,
    /// Show the next visualizer style (visualizer view).
    NextStyle,
    /// Switch between the spectrum and the volume source (visualizer
    /// view).
    ToggleSpectrum,
    Playback(PlaybackAction),
    Nothing,
}

/// The keys of the visualizer view (`visualizer` set) and of the track
/// info view.
pub open spec fn display_view_key_spec(p: KeyPress, visualizer: bool) -> DisplayViewAction {
    let view = if visualizer {
        ViewMode::Visualizer
    } else {
        ViewMode::TrackInfo
    };
    let k = p.key;
    if jump_action(view, k) is Some {
        let v = jump_action(view, k)->0;
        DisplayViewAction::SwitchView { view: v, refresh: v == ViewMode::Playlists }
    } else if k == Key::Char('q') {
        DisplayViewAction::Quit
    } else if k == Key::Esc {
        DisplayViewAction::ToPlaylist
    } else if visualizer && k == Key::Char('s') {
        DisplayViewAction::NextStyle
    } else if visualizer && k == Key::Char('f') {
        DisplayViewAction::ToggleSpectrum
    } else if playback_key_spec(p) is Some {
        DisplayViewAction::Playback(playback_key_spec(p)->0)
    } else {
        DisplayViewAction::Nothing
    }
}

/// Handles a key in the visualizer view (`visualizer` set) or the track
/// info view.
pub fn display_view_key(p: KeyPress, visualizer: bool) -> (r: DisplayViewAction)
    ensures
        r == display_view_key_spec(p, visualizer),
{
    let view = if visualizer {
        ViewMode::Visualizer
    } else {
        ViewMode::TrackInfo
    };
    let k = p.key;
    if let Some((v, refresh)) = jump_key(view, k) {
        return DisplayViewAction::SwitchView { view: v, refresh };
    }
    if k == Key::Char('q') {
        DisplayViewAction::Quit
    } else if k == Key::Esc {
        DisplayViewAction::ToPlaylist
    } else if visualizer && k == Key::Char('s') {
        DisplayViewAction::NextStyle
    } else if visualizer && k == Key::Char('f') {
        DisplayViewAction::ToggleSpectrum
    } else if let Some(a) = playback_key(p) {
        DisplayViewAction::Playback(a)
    } else {
        DisplayViewAction::Nothing
    }
}

/// The help view after a key: whether it closes (returning to the
/// playlist view), and the new scroll offset. Up and Down scroll by one
/// line, Page Up and Page Down by ten, Home goes to the top; scrolling
/// stops at zero and at the largest offset.
pub fn help_view_key(k: Key, scroll: u16) -> (r: (bool, u16))
    ensures
        r == if k == Key::Char('q') || k == Key::Esc || k == Key::Char('?') {
            (true, 0u16)
        } else if k == Key::Up || k == Key::Char('k') {
            (false, if scroll >= 1 { (scroll - 1) as u16 } else { 0u16 })
        } else if k == Key::Down || k == Key::Char('j') {
            (false, if scroll < u16::MAX { (scroll + 1) as u16 } else { u16::MAX })
        } else if k == Key::PageUp {
            (false, if scroll >= 10 { (scroll - 10) as u16 } else { 0u16 })
        } else if k == Key::PageDown {
            (false, if scroll + 10 <= u16::MAX { (scroll + 10) as u16 } else { u16::MAX })
        } else if k == Key::Home {
            (false, 0u16)
        } else {
            (false, scroll)
        },
{
    if k == Key::Char('q') || k == Key::Esc || k == Key::Char('?') {
        (true, 0)
    } else if k == Key::Up || k == Key::Char('k') {
        (false, scroll.saturating_sub(1))
    } else if k == Key::Down || k == Key::Char('j') {
        (false, scroll.saturating_add(1))
    } else if k == Key::PageUp {
        (false, scroll.saturating_sub(10))
    } else if k == Key::PageDown {
        (false, scroll.saturating_add(10))
    } else if k == Key::Home {
        (false, 0)
    } else {
        (false, scroll)
    }
}


// ---------------------------------------------------------------------
// What the keys mean
// ---------------------------------------------------------------------

/// The playback keys: the right arrow and `l` play the next track (seek
/// forward with Ctrl), the left arrow and `h` the previous one (seek back
/// with Ctrl), Space plays or pauses, `+`/`=` and `-`/`_` change the
/// volume, `m` mutes; Shift changes nothing, and no other key is a
/// playback key.
pub proof fn law_playback_keys(p: KeyPress)
    ensures
        (p.key == Key::Right || p.key == Key::Char('l')) ==> playback_key_spec(p) == Some(
            if p.ctrl {
                PlaybackAction::SeekForward
            } else {
                PlaybackAction::Next
            },
        ),
        (p.key == Key::Left || p.key == Key::Char('h')) ==> playback_key_spec(p) == Some(
            if p.ctrl {
                PlaybackAction::SeekBackward
            } else {
                PlaybackAction::Previous
            },
        ),
        p.key == Key::Char(' ') ==> playback_key_spec(p) == Some(PlaybackAction::TogglePlayback),
        (p.key == Key::Char('+') || p.key == Key::Char('=')) ==> playback_key_spec(p) == Some(
            PlaybackAction::VolumeUp,
        ),
        (p.key == Key::Char('-') || p.key == Key::Char('_')) ==> playback_key_spec(p) == Some(
            PlaybackAction::VolumeDown,
        ),
        p.key == Key::Char('m') ==> playback_key_spec(p) == Some(PlaybackAction::ToggleMute),
        !(p.key == Key::Right || p.key == Key::Char('l') || p.key == Key::Left || p.key == Key::Char(
            'h',
        ) || p.key == Key::Char(' ') || p.key == Key::Char('+') || p.key == Key::Char('=') || p.key
            == Key::Char('-') || p.key == Key::Char('_') || p.key == Key::Char('m'))
            ==> playback_key_spec(p) is None,
        playback_key_spec(p) == playback_key_spec(KeyPress { shift: !p.shift, ..p }),
{
}

/// The view-switch keys: `b` opens the browser, `v` the visualizer, `p`
/// the saved playlists and `i` the track info, and the key of the view
/// already shown goes back to the playlist; other keys switch nothing.
pub proof fn law_view_jump_keys(view: ViewMode, c: char)
    ensures
        view_jump_spec(view, c) == if c == 'b' || c == 'v' || c == 'p' || c == 'i' {
            let t = if c == 'b' {
                ViewMode::Browser
            } else if c == 'v' {
                ViewMode::Visualizer
            } else if c == 'p' {
                ViewMode::Playlists
            } else {
                ViewMode::TrackInfo
            };
            Some(
                if view == t {
                    ViewMode::Playlist
                } else {
                    t
                },
            )
        } else {
            None
        },
{
}

/// The playlist view's keys: the arrows and `j`/`k` move the selection,
/// Enter plays the selected track, Home/`g` and End/`G` jump to the ends,
/// `q` quits, Space plays or pauses, the left and right arrows are the
/// playback keys, and a view-switch key switches views, listing the saved
/// playlists again when it opens them.
pub proof fn law_playlist_view_keys(p: KeyPress, edit_mode: bool)
    ensures
        (p.key == Key::Up || p.key == Key::Char('k')) ==> playlist_view_key_spec(p, edit_mode)
            == PlaylistViewAction::SelectPrevious,
        (p.key == Key::Down || p.key == Key::Char('j')) ==> playlist_view_key_spec(p, edit_mode)
            == PlaylistViewAction::SelectNext,
        p.key == Key::Enter ==> playlist_view_key_spec(p, edit_mode)
            == PlaylistViewAction::PlaySelected,
        (p.key == Key::Home || p.key == Key::Char('g')) ==> playlist_view_key_spec(p, edit_mode)
            == PlaylistViewAction::SelectFirst,
        (p.key == Key::End || p.key == Key::Char('G')) ==> playlist_view_key_spec(p, edit_mode)
            == PlaylistViewAction::SelectLast,
        p.key == Key::Char('q') ==> playlist_view_key_spec(p, edit_mode) == PlaylistViewAction::Quit,
        p.key == Key::Char(' ') ==> playlist_view_key_spec(p, edit_mode)
            == PlaylistViewAction::PlayPause,
        p.key == Key::Right ==> playlist_view_key_spec(p, edit_mode) == PlaylistViewAction::Playback(
            if p.ctrl {
                PlaybackAction::SeekForward
            } else {
                PlaybackAction::Next
            },
        ),
        p.key == Key::Left ==> playlist_view_key_spec(p, edit_mode) == PlaylistViewAction::Playback(
            if p.ctrl {
                PlaybackAction::SeekBackward
            } else {
                PlaybackAction::Previous
            },
        ),
        p.key == Key::Char('b') ==> playlist_view_key_spec(p, edit_mode)
            == (PlaylistViewAction::SwitchView { view: ViewMode::Browser, refresh: false }),
        p.key == Key::Char('v') ==> playlist_view_key_spec(p, edit_mode)
            == (PlaylistViewAction::SwitchView { view: ViewMode::Visualizer, refresh: false }),
        p.key == Key::Char('i') ==> playlist_view_key_spec(p, edit_mode)
            == (PlaylistViewAction::SwitchView { view: ViewMode::TrackInfo, refresh: false }),
        p.key == Key::Char('e') ==> playlist_view_key_spec(p, edit_mode)
            == PlaylistViewAction::ToggleEditMode,
        p.key == Key::Char('s') ==> playlist_view_key_spec(p, edit_mode) == if edit_mode {
            PlaylistViewAction::Nothing
        } else {
            PlaylistViewAction::SavePrompt
        },
        p.key == Key::Char('J') ==> playlist_view_key_spec(p, edit_mode) == if edit_mode
            && p.shift {
            PlaylistViewAction::MoveDown
        } else {
            PlaylistViewAction::Nothing
        },
        p.key == Key::Char('K') ==> playlist_view_key_spec(p, edit_mode) == if edit_mode
            && p.shift {
            PlaylistViewAction::MoveUp
        } else {
            PlaylistViewAction::Nothing
        },
        p.key == Key::Char('d') ==> playlist_view_key_spec(p, edit_mode) == if edit_mode {
            PlaylistViewAction::DeleteSelected
        } else {
            PlaylistViewAction::Nothing
        },
        p.key == Key::Char('c') ==> playlist_view_key_spec(p, edit_mode) == if edit_mode {
            PlaylistViewAction::ClearPlaylist
        } else {
            PlaylistViewAction::Nothing
        },
        p.key == Key::Char('R') ==> playlist_view_key_spec(p, edit_mode) == PlaylistViewAction::Reload,
        p.key == Key::Char('r') ==> playlist_view_key_spec(p, edit_mode)
            == PlaylistViewAction::CycleRepeat,
        p.key == Key::Char('S') ==> playlist_view_key_spec(p, edit_mode)
            == PlaylistViewAction::ToggleShuffle,
        (p.key == Key::Char('l') || p.key == Key::Char('h') || p.key == Key::Char('+') || p.key
            == Key::Char('=') || p.key == Key::Char('-') || p.key == Key::Char('_') || p.key
            == Key::Char('m')) ==> playlist_view_key_spec(p, edit_mode) == PlaylistViewAction::Playback(
            playback_key_spec(p)->0,
        ),
        p.key == Key::Char('p') ==> playlist_view_key_spec(p, edit_mode)
            == (PlaylistViewAction::SwitchView { view: ViewMode::Playlists, refresh: true }),
{
    law_playback_keys(p);
}

/// The browser view's keys: the arrows and `j`/`k` move the selection,
/// Enter, `l` and the right arrow enter the selection, Backspace, `h` and
/// the left arrow go up, Esc goes back to the playlist, `q` quits, `a`
/// adds the selection, `.` shows or hides hidden files, `~` goes home.
pub proof fn law_browser_view_keys(k: Key)
    ensures
        (k == Key::Up || k == Key::Char('k')) ==> browser_view_key_spec(k)
            == BrowserViewAction::SelectPrevious,
        (k == Key::Down || k == Key::Char('j')) ==> browser_view_key_spec(k)
            == BrowserViewAction::SelectNext,
        (k == Key::Enter || k == Key::Char('l') || k == Key::Right) ==> browser_view_key_spec(k)
            == BrowserViewAction::EnterSelected,
        (k == Key::Backspace || k == Key::Char('h') || k == Key::Left) ==> browser_view_key_spec(k)
            == BrowserViewAction::GoUp,
        k == Key::Esc ==> browser_view_key_spec(k) == BrowserViewAction::ToPlaylist,
        k == Key::Char('q') ==> browser_view_key_spec(k) == BrowserViewAction::Quit,
        k == Key::Char('a') ==> browser_view_key_spec(k) == BrowserViewAction::AddSelected,
        k == Key::Char('.') ==> browser_view_key_spec(k) == BrowserViewAction::ToggleHidden,
        k == Key::Char('~') ==> browser_view_key_spec(k) == BrowserViewAction::GoHome,
        k == Key::Char('b') ==> browser_view_key_spec(k) == (BrowserViewAction::SwitchView {
            view: ViewMode::Playlist,
            refresh: false,
        }),
        k == Key::Char('p') ==> browser_view_key_spec(k) == (BrowserViewAction::SwitchView {
            view: ViewMode::Playlists,
            refresh: true,
        }),
        k == Key::Char('s') ==> browser_view_key_spec(k) == BrowserViewAction::SaveM3u,
        k == Key::Char('S') ==> browser_view_key_spec(k) == BrowserViewAction::SaveDirPlaylist,
        k == Key::Char('R') ==> browser_view_key_spec(k) == BrowserViewAction::Refresh,
        (k == Key::Home || k == Key::Char('g')) ==> browser_view_key_spec(k)
            == BrowserViewAction::SelectFirst,
        (k == Key::End || k == Key::Char('G')) ==> browser_view_key_spec(k)
            == BrowserViewAction::SelectLast,
        (k == Key::Char(' ') || k == Key::Char('m') || k == Key::PageUp || k == Key::Other)
            ==> browser_view_key_spec(k) == BrowserViewAction::Nothing,
{
}

/// The settings view's keys: Up/`k` and Down/`j` move between its two
/// settings (stopping at the ends), Enter toggles the selected one (the
/// chat presence first, the media controls second), Esc goes back to the
/// playlist, `q` quits, and the playback keys work.
pub proof fn law_settings_view_keys(p: KeyPress, selected: usize)
    ensures
        p.key == Key::Char('q') ==> settings_view_key_spec(p, selected) == SettingsViewAction::Quit,
        p.key == Key::Esc ==> settings_view_key_spec(p, selected) == SettingsViewAction::ToPlaylist,
        (p.key == Key::Up || p.key == Key::Char('k')) ==> settings_view_key_spec(p, selected) == if selected
            == 0 {
            SettingsViewAction::Nothing
        } else {
            SettingsViewAction::Select((selected - 1) as usize)
        },
        (p.key == Key::Down || p.key == Key::Char('j')) ==> settings_view_key_spec(p, selected) == if selected
            == 0 {
            SettingsViewAction::Select(1)
        } else {
            SettingsViewAction::Nothing
        },
        p.key == Key::Enter && selected == 0 ==> settings_view_key_spec(p, selected)
            == SettingsViewAction::ToggleDiscord,
        p.key == Key::Enter && selected == 1 ==> settings_view_key_spec(p, selected)
            == SettingsViewAction::ToggleMediaControls,
        p.key == Key::Right && !p.ctrl ==> settings_view_key_spec(p, selected)
            == SettingsViewAction::Playback(PlaybackAction::Next),
        p.key == Key::Char(' ') ==> settings_view_key_spec(p, selected) == SettingsViewAction::Playback(
            PlaybackAction::TogglePlayback,
        ),
{
}

/// The visualizer and track-info views' keys: `s` shows the next
/// visualizer style and `f` switches its source (visualizer only), Esc
/// goes back to the playlist, `q` quits, the view's own key goes back to
/// the playlist, and the playback keys work.
pub proof fn law_display_view_keys(p: KeyPress, visualizer: bool)
    ensures
        p.key == Key::Char('q') ==> display_view_key_spec(p, visualizer) == DisplayViewAction::Quit,
        p.key == Key::Esc ==> display_view_key_spec(p, visualizer) == DisplayViewAction::ToPlaylist,
        p.key == Key::Char('s') ==> display_view_key_spec(p, visualizer) == if visualizer {
            DisplayViewAction::NextStyle
        } else {
            DisplayViewAction::Nothing
        },
        p.key == Key::Char('f') ==> display_view_key_spec(p, visualizer) == if visualizer {
            DisplayViewAction::ToggleSpectrum
        } else {
            DisplayViewAction::Nothing
        },
        p.key == Key::Char('v') ==> display_view_key_spec(p, visualizer) == (DisplayViewAction::SwitchView {
            view: if visualizer {
                ViewMode::Playlist
            } else {
                ViewMode::Visualizer
            },
            refresh: false,
        }),
        p.key == Key::Char('i') ==> display_view_key_spec(p, visualizer) == (DisplayViewAction::SwitchView {
            view: if visualizer {
                ViewMode::TrackInfo
            } else {
                ViewMode::Playlist
            },
            refresh: false,
        }),
        p.key == Key::Right && !p.ctrl ==> display_view_key_spec(p, visualizer)
            == DisplayViewAction::Playback(PlaybackAction::Next),
        p.key == Key::Left && !p.ctrl ==> display_view_key_spec(p, visualizer)
            == DisplayViewAction::Playback(PlaybackAction::Previous),
{
}

} // verus!

//! The terminal interface's decisions: the browser title, moving the
//! playlist selection, restoring the session, listing saved playlists,
//! and editing the command and search lines. Drawing and reading the
//! terminal are left to the caller.

use vstd::prelude::*;
use crate::browser::FileBrowser;
use crate::player::PlaybackState;
use crate::track_info::{duration_text, format_duration};
use crate::paths::{opt_paths_equal, opt_ref_view, same_opt_path};
use crate::command::{
    Command, DirPlCmd, get_next_word_chunk, get_suggestion, next_word_chunk_spec, opt_string_view, run_len, suggestion_spec,
};
use crate::input::{InputBuffer, InputBufferView, InputMode, lemma_utf8_len_prefix, utf8_len};
use crate::persist::{listed_names, saved_names, sort_names, SessionState};
use crate::playlist::{string_views, Playlist};
use crate::popup::{input_key_effect, EditKey, PendingAction, PlaylistEntry};
use crate::text::{chars_to_string, decimal, push_decimal, starts_with_chars, str_chars, sub_chars, push_str};
use crate::view::{next_tab_of, prev_tab_of, ViewMode};

verus! {

broadcast use vstd::string::group_string_axioms;

// ---------------------------------------------------------------------
// Browser title
// ---------------------------------------------------------------------

/// The browser's title for a directory path: the path between spaces, or,
/// for a path longer than 50 characters, `...` and its last 47
/// characters.
pub open spec fn title_spec(path: Seq<char>) -> Seq<char> {
    if path.len() > 50 {
        " ..."@ + path.skip(path.len() - 47) + " "@
    } else {
        " "@ + path + " "@
    }
}

/// The browser's title for a directory path, cut by characters, never
/// inside one.
pub fn title_for_path(path: &str) -> (r: String)
    ensures
        r@ == title_spec(path@),
{
    let v = str_chars(path);
    let n = v.len();
    let mut out = String::new();
    if n > 50 {
        push_str(&mut out, " ...");
        let tail = sub_chars(&v, n - 47, n);
        let t = chars_to_string(&tail);
        push_str(&mut out, t.as_str());
        proof {
            assert(v@.subrange(n - 47, n as int) =~= path@.skip(path@.len() - 47));
        }
    } else {
        push_str(&mut out, " ");
        push_str(&mut out, path);
    }
    push_str(&mut out, " ");
    out
}

// ---------------------------------------------------------------------
// Playlist selection
// ---------------------------------------------------------------------

/// The selection after moving down a list of `len` items: the next item,
/// wrapping to the first; the first when nothing is selected; unchanged
/// in an empty list.
pub open spec fn select_next_spec(selected: Option<usize>, len: nat) -> Option<usize> {
    if len == 0 {
        selected
    } else {
        match selected {
            Some(i) => if i >= len - 1 {
                Some(0usize)
            } else {
                Some((i + 1) as usize)
            },
            None => Some(0usize),
        }
    }
}

/// The selection after moving up a list of `len` items: the previous
/// item, wrapping to the last; the first when nothing is selected;
/// unchanged in an empty list.
pub open spec fn select_previous_spec(selected: Option<usize>, len: nat) -> Option<usize> {
    if len == 0 {
        selected
    } else {
        match selected {
            Some(i) => if i == 0 {
                Some((len - 1) as usize)
            } else {
                Some((i - 1) as usize)
            },
            None => Some(0usize),
        }
    }
}

/// Moves the playlist selection down.
pub fn playlist_select_next(selected: Option<usize>, len: usize) -> (r: Option<usize>)
    ensures
        r == select_next_spec(selected, len as nat),
{
    if len == 0 {
        return selected;
    }
    match selected {
        Some(i) => if i >= len - 1 {
            Some(0)
        } else {
            Some(i + 1)
        },
        None => Some(0),
    }
}

/// Moves the playlist selection up.
pub fn playlist_select_previous(selected: Option<usize>, len: usize) -> (r: Option<usize>)
    ensures
        r == select_previous_spec(selected, len as nat),
{
    if len == 0 {
        return selected;
    }
    match selected {
        Some(i) => if i == 0 {
            Some(len - 1)
        } else {
            Some(i - 1)
        },
        None => Some(0),
    }
}

/// Moving the selection down and then up comes back to the same item,
/// whatever item of the list was selected.
pub proof fn law_select_round_trip(i: usize, len: usize)
    requires
        i < len,
    ensures
        select_previous_spec(select_next_spec(Some(i), len as nat), len as nat) == Some(i),
        select_next_spec(select_previous_spec(Some(i), len as nat), len as nat) == Some(i),
{
}

/// The move that shifts the selected track one place down, if it is not
/// the last: `(from, to)`; the selection follows it to `to`.
pub fn move_track_down(selected: Option<usize>, len: usize) -> (r: Option<(usize, usize)>)
    ensures
        r == match selected {
            Some(i) => if i + 1 < len {
                Some((i, (i + 1) as usize))
            } else {
                None
            },
            None => None,
        },
{
    match selected {
        Some(idx) => {
            let last = if len > 0 {
                len - 1
            } else {
                0
            };
            if idx < last {
                Some((idx, idx + 1))
            } else {
                None
            }
        },
        None => None,
    }
}

/// The move that shifts the selected track one place up, if it is not
/// the first: `(from, to)`; the selection follows it to `to`.
pub fn move_track_up(selected: Option<usize>) -> (r: Option<(usize, usize)>)
    ensures
        r == match selected {
            Some(i) => if i > 0 {
                Some((i, (i - 1) as usize))
            } else {
                None
            },
            None => None,
        },
{
    match selected {
        Some(idx) => if idx > 0 {
            Some((idx, idx - 1))
        } else {
            None
        },
        None => None,
    }
}

/// The selection after the selected track `idx` of a list of `len`
/// tracks is removed: none when the list becomes empty, the new last
/// track when `idx` is past it, else `idx`.
pub fn selection_after_remove(idx: usize, len: usize) -> (r: Option<usize>)
    ensures
        r == if len <= 1 {
            None
        } else if idx >= len - 1 {
            Some((len - 2) as usize)
        } else {
            Some(idx)
        },
{
    let new_len = if len > 0 {
        len - 1
    } else {
        0
    };
    if new_len == 0 {
        None
    } else if idx >= new_len {
        Some(new_len - 1)
    } else {
        Some(idx)
    }
}

/// The playlist row a mouse click at (`column`, `row`) lands on, for a
/// list drawn in the bordered area at (`x`, `y`) of size `width` by
/// `height` and scrolled by `offset`: `None` outside the border or past
/// the last of the `len` tracks.
pub fn clicked_index(
    x: u16,
    y: u16,
    width: u16,
    height: u16,
    offset: usize,
    column: u16,
    row: u16,
    len: usize,
) -> (r: Option<usize>)
    requires
        column > x ==> 1 <= x + width <= u16::MAX,
        column > x && column < x + width - 1 && row > y ==> 1 <= y + height <= u16::MAX,
        column > x && column < x + width - 1 && row > y && row < y + height - 1 ==> offset + (row
            - y - 1) <= usize::MAX,
    ensures
        r == if column > x && column < x + width - 1 && row > y && row < y + height - 1 && offset
            + (row - y - 1) < len {
            Some((offset + (row - y - 1)) as usize)
        } else {
            None
        },
{
    if column > x && column < x + width - 1 && row > y && row < y + height - 1 {
        let idx = offset + (row - y - 1) as usize;
        if idx < len {
            Some(idx)
        } else {
            None
        }
    } else {
        None
    }
}

// ---------------------------------------------------------------------
// Session restore and the saved playlists
// ---------------------------------------------------------------------

/// The playlist a session's name refers to: `m3u:<name>` for an M3U
/// playlist, `dirpl:<name>` for a directory playlist.
pub fn session_last_loaded(name: &str) -> (r: Option<PlaylistEntry>)
    ensures
        match r {
            Some(PlaylistEntry::M3u(n)) => "m3u:"@.is_prefix_of(name@) && n@ == name@.skip(4),
            Some(PlaylistEntry::DirPl(n)) => !"m3u:"@.is_prefix_of(name@) && "dirpl:"@.is_prefix_of(
                name@,
            ) && n@ == name@.skip(6),
            None => !"m3u:"@.is_prefix_of(name@) && !"dirpl:"@.is_prefix_of(name@),
        },
{
    let v = str_chars(name);
    let m3u = str_chars("m3u:");
    let dirpl = str_chars("dirpl:");
    proof {
        reveal_strlit("m3u:");
        reveal_strlit("dirpl:");
    }
    if starts_with_chars(&v, &m3u) {
        let rest = sub_chars(&v, 4, v.len());
        proof {
            assert(v@.subrange(4, v@.len() as int) =~= name@.skip(4));
        }
        Some(PlaylistEntry::M3u(chars_to_string(&rest)))
    } else if starts_with_chars(&v, &dirpl) {
        let rest = sub_chars(&v, 6, v.len());
        proof {
            assert(v@.subrange(6, v@.len() as int) =~= name@.skip(6));
        }
        Some(PlaylistEntry::DirPl(chars_to_string(&rest)))
    } else {
        None
    }
}

/// Restores a session onto the playlist loaded for it: its shuffle and
/// repeat modes, and its track when the playlist has that many tracks.
pub fn restore_session(playlist: &mut Playlist, session: &SessionState)
    requires
        old(playlist).wf(),
    ensures
        final(playlist).wf(),
        final(playlist)@.tracks == old(playlist)@.tracks,
        final(playlist)@.shuffle == session.shuffle,
        final(playlist)@.repeat == session.repeat,
        final(playlist)@.current == match session.track_index {
            Some(i) => if i < old(playlist)@.tracks.len() {
                Some(i)
            } else {
                old(playlist)@.current
            },
            None => old(playlist)@.current,
        },
{
    playlist.set_shuffle(session.shuffle);
    playlist.set_repeat(session.repeat);
    match session.track_index {
        Some(idx) => {
            let _ = playlist.jump_to(idx);
        },
        None => {},
    }
}

/// The entries of the saved-playlists view, given the files of the
/// playlist directory: the M3U playlists, then the directory playlists,
/// each sorted by name, without `_last`.
pub fn playlist_entries(paths: &Vec<String>) -> (r: Vec<PlaylistEntry>)
    ensures
        ({
            let m = sort_names(listed_names(string_views(paths@), "m3u"@));
            let d = sort_names(listed_names(string_views(paths@), "horikawa"@));
            &&& r@.len() == m.len() + d.len()
            &&& forall|i: int| 0 <= i < m.len() ==> (#[trigger] r@[i] matches PlaylistEntry::M3u(n) && n@ == m[i])
            &&& forall|i: int| m.len() <= i < r@.len() ==> (#[trigger] r@[i] matches PlaylistEntry::DirPl(n) && n@ == d[i - m.len()])
        }),
{
    let m3u = saved_names(paths, "m3u");
    let dirpl = saved_names(paths, "horikawa");
    let ghost m = string_views(m3u@);
    let ghost d = string_views(dirpl@);
    let mut r: Vec<PlaylistEntry> = Vec::new();
    let nm = m3u.len();
    let mut i: usize = 0;
    while i < nm
        invariant
            i <= nm,
            nm == m3u@.len(),
            m == string_views(m3u@),
            r@.len() == i,
            forall|k: int| 0 <= k < i ==> (#[trigger] r@[k] matches PlaylistEntry::M3u(n) && n@ == m[k]),
        decreases nm - i,
    {
        r.push(PlaylistEntry::M3u(m3u[i].clone()));
        i = i + 1;
    }
    let nd = dirpl.len();
    let mut j: usize = 0;
    while j < nd
        invariant
            j <= nd,
            nd == dirpl@.len(),
            d == string_views(dirpl@),
            r@.len() == nm + j,
            forall|k: int| 0 <= k < nm ==> (#[trigger] r@[k] matches PlaylistEntry::M3u(n) && n@ == m[k]),
            forall|k: int| nm <= k < nm + j ==> (#[trigger] r@[k] matches PlaylistEntry::DirPl(n) && n@ == d[k - nm]),
        decreases nd - j,
    {
        r.push(PlaylistEntry::DirPl(dirpl[j].clone()));
        j = j + 1;
    }
    r
}

// ---------------------------------------------------------------------
// The command line and the search line
// ---------------------------------------------------------------------

/// The interface's line input: the input mode, the text being typed, and
/// the completion shown after a command being typed.
pub struct CommandLine {
    pub input_mode: InputMode,
    pub input_buffer: InputBuffer,
    pub command_ghost: Option<String>,
}

/// What an editing key does to the command line's text and cursor. Right
/// at the end of the text accepts the next word of the completion, if
/// there is one.
pub open spec fn command_key_effect(
    v: InputBufferView,
    ghost: Option<Seq<char>>,
    key: EditKey,
) -> InputBufferView {
    if key == EditKey::Right && v.cursor >= v.content.len() && ghost is Some {
        let c = next_word_chunk_spec(ghost->0);
        if c.len() > 0 {
            InputBufferView {
                content: v.content.take(v.cursor as int) + c + v.content.skip(v.cursor as int),
                cursor: v.cursor + c.len(),
            }
        } else {
            v
        }
    } else {
        InputBufferView {
            content: input_key_effect(v.content, v.cursor, key).0,
            cursor: input_key_effect(v.content, v.cursor, key).1,
        }
    }
}

proof fn lemma_run_len_bound(s: Seq<char>, c: char, eq: bool)
    ensures
        run_len(s, c, eq) <= s.len(),
    decreases s.len(),
{
    if s.len() > 0 && (s[0] == c) == eq {
        lemma_run_len_bound(s.drop_first(), c, eq);
    }
}

/// The next word of a completion is a prefix of it.
proof fn lemma_chunk_prefix(g: Seq<char>)
    ensures
        utf8_len(next_word_chunk_spec(g)) <= utf8_len(g),
        next_word_chunk_spec(g).len() <= g.len(),
{
    let k = run_len(g, ' ', true);
    lemma_run_len_bound(g, ' ', true);
    lemma_run_len_bound(g.skip(k as int), ' ', false);
    lemma_utf8_len_prefix(g, (k + run_len(g.skip(k as int), ' ', false)) as int);
}

impl CommandLine {
    /// The command line's invariant: the buffer's own.
    pub open spec fn wf(&self) -> bool {
        self.input_buffer.wf()
    }

    /// Handles a key typed on the command line. Enter returns the command
    /// text to run and leaves the command line; Esc, and Backspace on an
    /// empty line, leave it; the other keys edit the text, after which
    /// the completion is worked out again.
    pub fn handle_command_key(&mut self, key: EditKey) -> (r: Option<String>)
        requires
            old(self).wf(),
            utf8_len(old(self).input_buffer@.content) + 4 <= isize::MAX,
            old(self).command_ghost matches Some(g) ==> utf8_len(old(self).input_buffer@.content)
                + utf8_len(g@) <= isize::MAX,
        ensures
            final(self).wf(),
            match key {
                EditKey::Enter => {
                    &&& r matches Some(t) && t@ == old(self).input_buffer@.content
                    &&& final(self).input_mode == InputMode::Normal
                    &&& final(self).input_buffer@.content == Seq::<char>::empty()
                    &&& final(self).input_buffer@.cursor == 0
                    &&& final(self).command_ghost is None
                },
                EditKey::Esc => {
                    &&& r is None
                    &&& final(self).input_mode == InputMode::Normal
                    &&& final(self).input_buffer@.content == Seq::<char>::empty()
                    &&& final(self).input_buffer@.cursor == 0
                    &&& final(self).command_ghost is None
                },
                _ => if key == EditKey::Backspace && old(self).input_buffer@.content.len() == 0 {
                    &&& r is None
                    &&& final(self).input_mode == InputMode::Normal
                    &&& final(self).input_buffer@ == old(self).input_buffer@
                    &&& final(self).command_ghost is None
                } else {
                    &&& r is None
                    &&& final(self).input_mode == old(self).input_mode
                    &&& final(self).input_buffer@ == command_key_effect(
                        old(self).input_buffer@,
                        opt_string_view(old(self).command_ghost),
                        key,
                    )
                    &&& opt_string_view(final(self).command_ghost) == suggestion_spec(
                        final(self).input_buffer@.content,
                    )
                },
            },
    {
        match key {
            EditKey::Enter => {
                let input = self.input_buffer.content().to_string();
                self.input_mode = InputMode::Normal;
                self.input_buffer.clear();
                self.command_ghost = None;
                return Some(input);
            },
            EditKey::Esc => {
                self.input_mode = InputMode::Normal;
                self.input_buffer.clear();
                self.command_ghost = None;
                return None;
            },
            EditKey::Backspace => {
                if self.input_buffer.is_empty() {
                    self.input_mode = InputMode::Normal;
                    self.command_ghost = None;
                    return None;
                } else {
                    self.input_buffer.backspace();
                }
            },
            EditKey::Delete => {
                self.input_buffer.delete();
            },
            EditKey::Left => {
                self.input_buffer.move_left();
            },
            EditKey::Right => {
                if self.input_buffer.cursor_at_end() {
                    match &self.command_ghost {
                        Some(ghost) => {
                            let chunk = get_next_word_chunk(ghost.as_str());
                            proof {
                                lemma_chunk_prefix(ghost@);
                            }
                            if !chunk.as_str().is_empty() {
                                proof {
                                    assert(chunk@.len() > 0);
                                }
                                self.input_buffer.insert_str(chunk.as_str());
                            } else {
                                proof {
                                    assert(chunk@.len() == 0);
                                }
                            }
                        },
                        None => {
                            self.input_buffer.move_right();
                        },
                    }
                } else {
                    self.input_buffer.move_right();
                }
            },
            EditKey::Home => {
                self.input_buffer.move_home();
            },
            EditKey::End => {
                self.input_buffer.move_end();
            },
            EditKey::Char(c) => {
                self.input_buffer.insert(c);
            },
            EditKey::Other => {},
        }
        self.command_ghost = get_suggestion(self.input_buffer.content());
        None
    }
}

/// Handles a key typed on the search line: Enter keeps the filter and
/// Esc clears it, both leaving the search line; Backspace and characters
/// edit the search text and filter the browser by it.
pub fn handle_search_key(
    mode: &mut InputMode,
    buffer: &mut InputBuffer,
    browser: &mut FileBrowser,
    key: EditKey,
)
    requires
        old(buffer).wf(),
        old(browser).wf(),
        utf8_len(old(buffer)@.content) + 4 <= isize::MAX,
    ensures
        final(buffer).wf(),
        final(browser).wf(),
        match key {
            EditKey::Enter => {
                &&& *final(mode) == InputMode::Normal
                &&& final(buffer)@.content == Seq::<char>::empty()
                &&& final(buffer)@.cursor == 0
                &&& final(browser)@ == old(browser)@
            },
            EditKey::Esc => {
                &&& *final(mode) == InputMode::Normal
                &&& final(buffer)@.content == Seq::<char>::empty()
                &&& final(buffer)@.cursor == 0
                &&& final(browser)@.filter == Seq::<char>::empty()
                &&& final(browser)@.entries == old(browser)@.entries
            },
            EditKey::Backspace | EditKey::Char(_) => {
                &&& *final(mode) == *old(mode)
                &&& final(buffer)@.content == input_key_effect(
                    old(buffer)@.content,
                    old(buffer)@.cursor,
                    key,
                ).0
                &&& final(buffer)@.cursor == input_key_effect(
                    old(buffer)@.content,
                    old(buffer)@.cursor,
                    key,
                ).1
                &&& final(browser)@.filter == final(buffer)@.content
                &&& final(browser)@.entries == old(browser)@.entries
            },
            _ => {
                &&& *final(mode) == *old(mode)
                &&& final(buffer)@ == old(buffer)@
                &&& final(browser)@ == old(browser)@
            },
        },
{
    match key {
        EditKey::Enter | EditKey::Esc => {
            *mode = InputMode::Normal;
            if key == EditKey::Esc {
                browser.clear_filter();
            }
            buffer.clear();
        },
        EditKey::Backspace => {
            buffer.backspace();
            browser.set_filter(buffer.content().to_string());
        },
        EditKey::Char(c) => {
            buffer.insert(c);
            browser.set_filter(buffer.content().to_string());
        },
        _ => {},
    }
}

// ---------------------------------------------------------------------
// Normal-mode keys shared by all views
// ---------------------------------------------------------------------

/// The keys the global shortcuts read in normal mode.
#[derive(Debug, Clone, Copy, PartialEq, Eq, Structural)]
pub enum NormalKey {
    Char(char),
    Tab,
    BackTab,
    Esc,
    /// Any other key.
    Other,
}

/// What a global shortcut does.
#[derive(Debug, Clone, Copy, PartialEq, Eq, Structural)]
pub enum GlobalAction {
    /// Start typing a command (the command line is cleared).
    EnterCommand,
    /// Switch to `view`, refreshing the list of saved playlists first
    /// when `refresh` is set.
    SwitchView { view: ViewMode, refresh: bool },
    /// Show the shortcuts of the current view; the key then still goes to
    /// the view.
    ShowShortcuts,
    /// Leave edit mode (status "Edit mode off").
    LeaveEditMode,
    /// Not a global shortcut: the current view handles the key.
    ToView,
}

/// The view a view-switch key leads to: `b` the browser, `v` the
/// visualizer, `p` the saved playlists, `i` the track info.
pub open spec fn jump_target(c: char) -> Option<ViewMode> {
    if c == 'b' {
        Some(ViewMode::Browser)
    } else if c == 'v' {
        Some(ViewMode::Visualizer)
    } else if c == 'p' {
        Some(ViewMode::Playlists)
    } else if c == 'i' {
        Some(ViewMode::TrackInfo)
    } else {
        None
    }
}

/// The view after a view-switch key: its view, or the playlist when that
/// view is the current one.
pub open spec fn view_jump_spec(view: ViewMode, c: char) -> Option<ViewMode> {
    match jump_target(c) {
        Some(t) => if view == t {
            Some(ViewMode::Playlist)
        } else {
            Some(t)
        },
        None => None,
    }
}

/// Handles the view-switch keys shared by the views: the new view, and
/// whether the list of saved playlists is to be refreshed first; `None`
/// for another key.
pub fn view_jump(view: ViewMode, c: char) -> (r: Option<(ViewMode, bool)>)
    ensures
        match r {
            Some((v, refresh)) => view_jump_spec(view, c) == Some(v) && refresh == (v
                == ViewMode::Playlists),
            None => view_jump_spec(view, c) is None,
        },
{
    let target = if c == 'b' {
        ViewMode::Browser
    } else if c == 'v' {
        ViewMode::Visualizer
    } else if c == 'p' {
        ViewMode::Playlists
    } else if c == 'i' {
        ViewMode::TrackInfo
    } else {
        return None;
    };
    if view == target {
        Some((ViewMode::Playlist, false))
    } else {
        Some((target, target == ViewMode::Playlists))
    }
}

/// Pressing a view-switch key a second time returns to the playlist.
pub proof fn law_view_jump_back(view: ViewMode, c: char)
    requires
        jump_target(c) is Some,
        view != jump_target(c)->0,
    ensures
        view_jump_spec(view_jump_spec(view, c)->0, c) == Some(ViewMode::Playlist),
{
}

/// What a normal-mode key does before the view sees it.
pub open spec fn global_key_spec(view: ViewMode, edit_mode: bool, key: NormalKey) -> GlobalAction {
    match key {
        NormalKey::Char('/') => GlobalAction::EnterCommand,
        NormalKey::Tab => GlobalAction::SwitchView {
            view: next_tab_of(view),
            refresh: next_tab_of(view) == ViewMode::Playlists,
        },
        NormalKey::BackTab => GlobalAction::SwitchView {
            view: prev_tab_of(view),
            refresh: prev_tab_of(view) == ViewMode::Playlists,
        },
        NormalKey::Char('?') => GlobalAction::SwitchView { view: ViewMode::Help, refresh: false },
        NormalKey::Char('H') => GlobalAction::ShowShortcuts,
        NormalKey::Esc => if view == ViewMode::Help || view == ViewMode::TrackInfo || view
            == ViewMode::Visualizer || view == ViewMode::Playlists {
            GlobalAction::SwitchView { view: ViewMode::Playlist, refresh: false }
        } else if edit_mode {
            GlobalAction::LeaveEditMode
        } else {
            GlobalAction::ToView
        },
        _ => GlobalAction::ToView,
    }
}

/// The global shortcuts: `/` starts a command, Tab and Shift+Tab step
/// forward and back in tab order, `?` opens help, `H` shows the
/// shortcuts, Esc leaves the help, track-info, visualizer and saved
/// playlists views for the playlist, or else leaves edit mode; any other
/// key goes to the view.
pub proof fn law_global_keys(view: ViewMode, edit_mode: bool, key: NormalKey)
    ensures
        key == NormalKey::Char('/') ==> global_key_spec(view, edit_mode, key) == GlobalAction::EnterCommand,
        key == NormalKey::Tab ==> global_key_spec(view, edit_mode, key) == (GlobalAction::SwitchView {
            view: next_tab_of(view),
            refresh: next_tab_of(view) == ViewMode::Playlists,
        }),
        key == NormalKey::BackTab ==> global_key_spec(view, edit_mode, key) == (GlobalAction::SwitchView {
            view: prev_tab_of(view),
            refresh: prev_tab_of(view) == ViewMode::Playlists,
        }),
        key == NormalKey::Char('?') ==> global_key_spec(view, edit_mode, key) == (GlobalAction::SwitchView {
            view: ViewMode::Help,
            refresh: false,
        }),
        key == NormalKey::Char('H') ==> global_key_spec(view, edit_mode, key) == GlobalAction::ShowShortcuts,
        key == NormalKey::Esc && (view == ViewMode::Help || view == ViewMode::TrackInfo || view
            == ViewMode::Visualizer || view == ViewMode::Playlists) ==> global_key_spec(view, edit_mode, key)
            == (GlobalAction::SwitchView { view: ViewMode::Playlist, refresh: false }),
        key == NormalKey::Esc && (view == ViewMode::Playlist || view == ViewMode::Browser || view
            == ViewMode::Settings) ==> global_key_spec(view, edit_mode, key) == if edit_mode {
            GlobalAction::LeaveEditMode
        } else {
            GlobalAction::ToView
        },
        (key == NormalKey::Other || key == NormalKey::Char('j') || key == NormalKey::Char(' '))
            ==> global_key_spec(view, edit_mode, key) == GlobalAction::ToView,
{
}

/// Moving the selection: down goes to the next item and from the last to
/// the first, up to the previous and from the first to the last; with
/// nothing selected either goes to the first; an empty list keeps its
/// selection.
pub proof fn law_select_moves(selected: Option<usize>, len: nat)
    ensures
        len == 0 ==> select_next_spec(selected, len) == selected && select_previous_spec(selected, len)
            == selected,
        len > 0 && selected is None ==> select_next_spec(selected, len) == Some(0usize)
            && select_previous_spec(selected, len) == Some(0usize),
        len > 0 && selected is Some && selected->0 + 1 < len ==> select_next_spec(selected, len)
            == Some((selected->0 + 1) as usize),
        len > 0 && selected is Some && selected->0 + 1 == len ==> select_next_spec(selected, len)
            == Some(0usize),
        len > 0 && selected is Some && 0 < selected->0 < len ==> select_previous_spec(selected, len)
            == Some((selected->0 - 1) as usize),
        len > 0 && selected == Some(0usize) && len <= usize::MAX ==> select_previous_spec(selected, len)
            == Some((len - 1) as usize),
{
}

/// Handles the shortcuts that work in every view: `/` starts a command,
/// Tab and Shift+Tab step through the views, `?` opens help, `H` shows
/// the shortcuts, and Esc returns from the overlay views to the playlist
/// or leaves edit mode.
pub fn global_key(view: ViewMode, edit_mode: bool, key: NormalKey) -> (r: GlobalAction)
    ensures
        r == global_key_spec(view, edit_mode, key),
{
    match key {
        NormalKey::Char('/') => GlobalAction::EnterCommand,
        NormalKey::Tab => {
            let v = view.next_tab();
            GlobalAction::SwitchView { view: v, refresh: v == ViewMode::Playlists }
        },
        NormalKey::BackTab => {
            let v = view.prev_tab();
            GlobalAction::SwitchView { view: v, refresh: v == ViewMode::Playlists }
        },
        NormalKey::Char('?') => GlobalAction::SwitchView { view: ViewMode::Help, refresh: false },
        NormalKey::Char('H') => GlobalAction::ShowShortcuts,
        NormalKey::Esc => {
            if view == ViewMode::Help || view == ViewMode::TrackInfo || view == ViewMode::Visualizer
                || view == ViewMode::Playlists {
                GlobalAction::SwitchView { view: ViewMode::Playlist, refresh: false }
            } else if edit_mode {
                GlobalAction::LeaveEditMode
            } else {
                GlobalAction::ToView
            }
        },
        _ => GlobalAction::ToView,
    }
}

// ---------------------------------------------------------------------
// Confirmed popups
// ---------------------------------------------------------------------

/// What a confirmed popup leads to.
pub enum PopupPlan {
    Nothing,
    /// Scan `dir`, put the audio files found in place of the playlist, and
    /// save it as the M3U playlist `name`.
    SaveScannedM3u { dir: String, name: String },
    /// Save the playlist as the M3U playlist `name`.
    SaveQueueM3u { name: String },
    /// Save `dir` as the directory playlist `name`.
    SaveDirPlaylist { dir: String, name: String },
    /// Delete the saved playlist, and list the saved playlists again.
    Delete(PlaylistEntry),
    /// Rename the saved playlist to `name`.
    Rename { entry: PlaylistEntry, name: String },
    /// The new name is empty: the rename is cancelled.
    RenameCancelled,
}

/// The name a playlist is saved under: the one typed, or `untitled`.
pub open spec fn save_name(typed: Option<Seq<char>>) -> Seq<char> {
    match typed {
        Some(n) => n,
        None => "untitled"@,
    }
}

/// What a confirmed popup with the typed text `name` leads to.
pub fn popup_plan(action: PendingAction, name: Option<String>) -> (r: PopupPlan)
    ensures
        match action {
            PendingAction::NoAction => r is Nothing,
            PendingAction::SaveM3uFromBrowser(dir) => r matches PopupPlan::SaveScannedM3u { dir: d, name: n }
                && d@ == dir@ && n@ == save_name(crate::paths::opt_str_view(name)),
            PendingAction::SaveM3uFromPlaylist => r matches PopupPlan::SaveQueueM3u { name: n } && n@
                == save_name(crate::paths::opt_str_view(name)),
            PendingAction::SaveDirPlFromBrowser(dir) => r matches PopupPlan::SaveDirPlaylist { dir: d, name: n }
                && d@ == dir@ && n@ == save_name(crate::paths::opt_str_view(name)),
            PendingAction::DeletePlaylist(e) => r matches PopupPlan::Delete(x) && x == e,
            PendingAction::RenamePlaylist(e) => match name {
                Some(n) => if n@.len() > 0 {
                    r matches PopupPlan::Rename { entry: x, name: m } && x == e && m@ == n@
                } else {
                    r is RenameCancelled
                },
                None => r is RenameCancelled,
            },
        },
{
    match action {
        PendingAction::NoAction => PopupPlan::Nothing,
        PendingAction::SaveM3uFromBrowser(dir) => PopupPlan::SaveScannedM3u {
            dir,
            name: match name {
                Some(n) => n,
                None => "untitled".to_string(),
            },
        },
        PendingAction::SaveM3uFromPlaylist => PopupPlan::SaveQueueM3u {
            name: match name {
                Some(n) => n,
                None => "untitled".to_string(),
            },
        },
        PendingAction::SaveDirPlFromBrowser(dir) => PopupPlan::SaveDirPlaylist {
            dir,
            name: match name {
                Some(n) => n,
                None => "untitled".to_string(),
            },
        },
        PendingAction::DeletePlaylist(e) => PopupPlan::Delete(e),
        PendingAction::RenamePlaylist(e) => match name {
            Some(n) => if n.as_str().is_empty() {
                PopupPlan::RenameCancelled
            } else {
                PopupPlan::Rename { entry: e, name: n }
            },
            None => PopupPlan::RenameCancelled,
        },
    }
}

/// The status after saving `count` tracks as the M3U playlist `name`.
pub fn saved_m3u_message(name: &str, count: usize) -> (r: String)
    ensures
        r@ == "Saved M3U playlist: "@ + name@ + " ("@ + decimal(count as nat) + " tracks)"@,
{
    let mut s = String::new();
    push_str(&mut s, "Saved M3U playlist: ");
    push_str(&mut s, name);
    push_str(&mut s, " (");
    push_decimal(&mut s, count as u64);
    push_str(&mut s, " tracks)");
    s
}

/// What renaming a saved playlist file does, given whether the old file
/// and a file with the new name exist.
#[derive(Debug, Clone, Copy, PartialEq, Eq, Structural)]
pub enum RenameStep {
    /// Rename the file.
    Rename,
    /// A playlist with the new name exists already.
    AlreadyExists,
    /// The old file is gone: nothing to do.
    Nothing,
}

/// Whether a rename goes ahead: only when the old file exists and the
/// new name is free.
pub fn rename_step(old_exists: bool, new_exists: bool) -> (r: RenameStep)
    ensures
        r == if old_exists && !new_exists {
            RenameStep::Rename
        } else if new_exists {
            RenameStep::AlreadyExists
        } else {
            RenameStep::Nothing
        },
{
    if old_exists && !new_exists {
        RenameStep::Rename
    } else if new_exists {
        RenameStep::AlreadyExists
    } else {
        RenameStep::Nothing
    }
}

// ---------------------------------------------------------------------
// Reloading, saving and following the playing track
// ---------------------------------------------------------------------

/// A copy of a string.
fn copy_string(s: &String) -> (r: String)
    ensures
        r@ == s@,
{
    let mut r = String::new();
    push_str(&mut r, s.as_str());
    r
}

/// The playlist to load again for `/reload`, and the status message: the
/// last loaded playlist, of either kind, or nothing to reload.
pub fn reload_plan(last: &Option<PlaylistEntry>) -> (r: (Option<PlaylistEntry>, String))
    ensures
        match last {
            Some(PlaylistEntry::M3u(n)) => r.0 matches Some(PlaylistEntry::M3u(m)) && m@ == n@
                && r.1@ == "Reloaded playlist: "@ + n@,
            Some(PlaylistEntry::DirPl(n)) => r.0 matches Some(PlaylistEntry::DirPl(m)) && m@ == n@
                && r.1@ == "Reloaded directory playlist: "@ + n@,
            None => r.0 is None && r.1@ == "Nothing to reload"@,
        },
{
    match last {
        Some(PlaylistEntry::M3u(n)) => {
            let mut msg = String::new();
            push_str(&mut msg, "Reloaded playlist: ");
            push_str(&mut msg, n.as_str());
            proof {
                assert(Seq::<char>::empty() + "Reloaded playlist: "@ =~= "Reloaded playlist: "@);
            }
            (Some(PlaylistEntry::M3u(copy_string(n))), msg)
        },
        Some(PlaylistEntry::DirPl(n)) => {
            let mut msg = String::new();
            push_str(&mut msg, "Reloaded directory playlist: ");
            push_str(&mut msg, n.as_str());
            proof {
                assert(Seq::<char>::empty() + "Reloaded directory playlist: "@
                    =~= "Reloaded directory playlist: "@);
            }
            (Some(PlaylistEntry::DirPl(copy_string(n))), msg)
        },
        None => {
            let mut msg = String::new();
            push_str(&mut msg, "Nothing to reload");
            proof {
                assert(Seq::<char>::empty() + "Nothing to reload"@ =~= "Nothing to reload"@);
            }
            (None, msg)
        },
    }
}

/// The last loaded playlist after a command: loading an M3U or a
/// directory playlist remembers it; every other command leaves it.
pub fn last_loaded_after(cmd: &Command, last: Option<PlaylistEntry>) -> (r: Option<PlaylistEntry>)
    ensures
        match cmd {
            Command::Load { name } => r matches Some(PlaylistEntry::M3u(m)) && m@ == name@,
            Command::DirPl { sub: DirPlCmd::Load { name } } => r matches Some(
                PlaylistEntry::DirPl(m),
            ) && m@ == name@,
            _ => r == last,
        },
{
    match cmd {
        Command::Load { name } => Some(PlaylistEntry::M3u(copy_string(name))),
        Command::DirPl { sub: DirPlCmd::Load { name } } => Some(PlaylistEntry::DirPl(copy_string(name))),
        _ => last,
    }
}

/// The directory `/dirpl save` saves: the one given, or else the
/// browser's current directory.
pub fn dirpl_save_dir(directory: Option<String>, current_dir: &str) -> (r: String)
    ensures
        r@ == match directory {
            Some(d) => d@,
            None => current_dir@,
        },
{
    match directory {
        Some(d) => d,
        None => {
            let mut r = String::new();
            push_str(&mut r, current_dir);
            proof {
                assert(Seq::<char>::empty() + current_dir@ =~= current_dir@);
            }
            r
        },
    }
}

/// Why saving an M3U playlist of `count` tracks is refused, if it is:
/// a scan of a directory (`from_scan`) that found no audio files, or an
/// empty queue.
pub fn save_refusal(from_scan: bool, count: usize) -> (r: Option<String>)
    ensures
        count > 0 ==> r is None,
        count == 0 && from_scan ==> (r matches Some(m) && m@ == "No audio files found in directory"@),
        count == 0 && !from_scan ==> (r matches Some(m) && m@ == "Playlist is empty"@),
{
    if count > 0 {
        None
    } else {
        let mut m = String::new();
        if from_scan {
            push_str(&mut m, "No audio files found in directory");
            proof {
                assert(Seq::<char>::empty() + "No audio files found in directory"@
                    =~= "No audio files found in directory"@);
            }
        } else {
            push_str(&mut m, "Playlist is empty");
            proof {
                assert(Seq::<char>::empty() + "Playlist is empty"@ =~= "Playlist is empty"@);
            }
        }
        Some(m)
    }
}

/// What follows saving `count` tracks as the M3U playlist `name`.
pub struct SavedStep {
    /// Whether the playlist becomes the last loaded one.
    pub remember: bool,
    /// The status message, if any.
    pub status: Option<String>,
}

/// What follows an M3U save, given how it went (`saved` is `None` when
/// there is no playlist directory to save in, else the write's outcome):
/// a failed write is reported; a done one reports the count. A playlist
/// made from a scanned directory is remembered in any case, and with no
/// directory nothing is reported; the queue is remembered unless the
/// write failed, and reports the count when there is no directory.
pub fn m3u_saved_step(
    from_scan: bool,
    name: &str,
    count: usize,
    saved: Option<Result<(), String>>,
) -> (r: SavedStep)
    ensures
        r.remember == (from_scan || !(saved matches Some(Err(_)))),
        match saved {
            Some(Err(e)) => r.status matches Some(m) && m@ == "Save error: "@ + e@,
            Some(Ok(())) => r.status matches Some(m) && m@ == "Saved M3U playlist: "@ + name@ + " ("@
                + decimal(count as nat) + " tracks)"@,
            None => if from_scan {
                r.status is None
            } else {
                r.status matches Some(m) && m@ == "Saved M3U playlist: "@ + name@ + " ("@ + decimal(
                    count as nat,
                ) + " tracks)"@
            },
        },
{
    match saved {
        Some(Err(e)) => {
            let mut m = String::new();
            push_str(&mut m, "Save error: ");
            push_str(&mut m, e.as_str());
            proof {
                assert(Seq::<char>::empty() + "Save error: "@ =~= "Save error: "@);
            }
            SavedStep { remember: from_scan, status: Some(m) }
        },
        Some(Ok(())) => SavedStep { remember: true, status: Some(saved_m3u_message(name, count)) },
        None => if from_scan {
            SavedStep { remember: true, status: None }
        } else {
            SavedStep { remember: true, status: Some(saved_m3u_message(name, count)) }
        },
    }
}

/// Whether the playlist view scrolls to the playing track: there is a
/// current track, playback is running, and the track is not the same path
/// as the one seen last.
pub fn follow_playing(
    has_current: bool,
    state: PlaybackState,
    last_track: Option<&str>,
    current_track: Option<&str>,
) -> (r: bool)
    ensures
        r == (has_current && state == PlaybackState::Playing && !same_opt_path(
            opt_ref_view(last_track),
            opt_ref_view(current_track),
        )),
{
    has_current && state == PlaybackState::Playing && !opt_paths_equal(last_track, current_track)
}

/// The status line after a `/seek`: `Seeking to m:ss`.
pub fn seek_status(position: u64) -> (r: String)
    ensures
        r@ == "Seeking to "@ + duration_text(position as nat),
{
    let mut s = String::new();
    push_str(&mut s, "Seeking to ");
    let t = format_duration(position);
    push_str(&mut s, t.as_str());
    proof {
        assert(Seq::<char>::empty() + "Seeking to "@ =~= "Seeking to "@);
    }
    s
}

/// The view shown after a command went through: `/goto`, `/home` and
/// `/search` show the browser, `/help` the help screen; other commands
/// keep the current view.
pub fn view_after_command(cmd: &Command, current: ViewMode) -> (r: ViewMode)
    ensures
        r == match cmd {
            Command::Goto { .. } | Command::Home | Command::Search { .. } => ViewMode::Browser,
            Command::Help => ViewMode::Help,
            _ => current,
        },
{
    match cmd {
        Command::Goto { .. } | Command::Home | Command::Search { .. } => ViewMode::Browser,
        Command::Help => ViewMode::Help,
        _ => current,
    }
}

} // verus!

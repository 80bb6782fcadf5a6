//! Popup dialogs: text input and confirmation popups that take all
//! keyboard input until confirmed or cancelled.

use vstd::prelude::*;
use crate::text::{chars_to_string, str_chars};
use vstd::string::StrSliceExecFns;

verus! {

broadcast use vstd::string::group_string_axioms;

/// Entry type for the saved-playlists view.
#[derive(Debug, Clone, PartialEq, Eq)]
pub enum PlaylistEntry {
    /// M3U playlist file (`.m3u`).
    M3u(String),
    /// Directory playlist file (`.horikawa`).
    DirPl(String),
}

impl PlaylistEntry {
    /// Returns the display name of the playlist.
    pub fn name(&self) -> (r: &str)
        ensures
            r@ == match self {
                PlaylistEntry::M3u(n) => n@,
                PlaylistEntry::DirPl(n) => n@,
            },
    {
        match self {
            PlaylistEntry::M3u(n) => n.as_str(),
            PlaylistEntry::DirPl(n) => n.as_str(),
        }
    }
}

/// Popup mode: its appearance and behaviour.
pub enum PopupMode {
    /// Text input popup: the user types a value.
    Input {
        /// Popup title (shown in the border).
        title: String,
        /// Current text buffer.
        buffer: String,
        /// Cursor position in characters (not bytes).
        cursor: usize,
    },
    /// Confirmation popup: the user presses Enter/Esc or y/n.
    Confirm {
        /// Popup title (shown in the border).
        title: String,
        /// Confirmation message shown in the popup body.
        message: String,
    },
}

/// Action to execute when the popup is confirmed.
pub enum PendingAction {
    /// No action: the popup is informational only.
    NoAction,
    /// Scan a directory and save its audio files as an M3U playlist.
    SaveM3uFromBrowser(String),
    /// Save a directory reference as a directory playlist.
    SaveDirPlFromBrowser(String),
    /// Save the current playlist tracks as an M3U file.
    SaveM3uFromPlaylist,
    /// Delete a playlist entry from the playlists view.
    DeletePlaylist(PlaylistEntry),
    /// Rename a playlist entry.
    RenamePlaylist(PlaylistEntry),
}

/// Complete popup state.
pub struct PopupState {
    pub mode: PopupMode,
    pub action: PendingAction,
    /// Preferred height in terminal rows (0 = use default).
    pub preferred_height: u16,
    /// If true, the popup is informational (Enter/Esc both close).
    pub is_info: bool,
}

/// Result of handling one keystroke in a popup.
pub enum PopupResult {
    /// The popup is still active.
    StillActive,
    /// The user confirmed the popup: `Some(text)` for an input popup,
    /// `None` for a confirmation.
    Confirmed(Option<String>),
    /// The user cancelled the popup.
    Cancelled,
}

/// The keys that edit a line of text (popups, the command line, the
/// search line).
#[derive(Debug, Clone, Copy, PartialEq, Eq, Structural)]
pub enum EditKey {
    Enter,
    Esc,
    Backspace,
    Delete,
    Left,
    Right,
    Home,
    End,
    Char(char),
    /// Any other key.
    Other,
}

impl PopupState {
    /// An input popup's cursor lies within its text.
    pub open spec fn wf(&self) -> bool {
        match self.mode {
            PopupMode::Input { buffer, cursor, .. } => cursor <= buffer@.len(),
            PopupMode::Confirm { .. } => true,
        }
    }

    /// Creates a new text-input popup with the cursor after the default
    /// text.
    pub fn new_input(title: String, default_text: String, action: PendingAction) -> (r: Self)
        ensures
            r.wf(),
            r.mode matches PopupMode::Input { title: t, buffer, cursor } && t == title && buffer
                == default_text && cursor == default_text@.len(),
            r.action == action,
            r.preferred_height == 0,
            !r.is_info,
    {
        let cursor = default_text.as_str().unicode_len();
        PopupState {
            mode: PopupMode::Input { title, buffer: default_text, cursor },
            action,
            preferred_height: 0,
            is_info: false,
        }
    }

    /// Creates a new confirmation popup.
    pub fn new_confirm(title: String, message: String, action: PendingAction) -> (r: Self)
        ensures
            r.wf(),
            r.mode == (PopupMode::Confirm { title, message }),
            r.action == action,
            r.preferred_height == 0,
            !r.is_info,
    {
        PopupState { mode: PopupMode::Confirm { title, message }, action, preferred_height: 0, is_info: false }
    }

    /// Creates an informational confirmation popup with a custom height.
    pub fn new_confirm_tall(title: String, message: String, action: PendingAction, height: u16) -> (r: Self)
        ensures
            r.wf(),
            r.mode == (PopupMode::Confirm { title, message }),
            r.action == action,
            r.preferred_height == height,
            r.is_info,
    {
        PopupState { mode: PopupMode::Confirm { title, message }, action, preferred_height: height, is_info: true }
    }
}

/// What a key does to an input popup's text and cursor, and the result.
pub open spec fn input_key_effect(buffer: Seq<char>, cursor: nat, key: EditKey) -> (Seq<char>, nat) {
    match key {
        EditKey::Backspace => if cursor > 0 {
            (buffer.remove(cursor - 1), (cursor - 1) as nat)
        } else {
            (buffer, cursor)
        },
        EditKey::Delete => if cursor < buffer.len() {
            (buffer.remove(cursor as int), cursor)
        } else {
            (buffer, cursor)
        },
        EditKey::Left => if cursor > 0 {
            (buffer, (cursor - 1) as nat)
        } else {
            (buffer, cursor)
        },
        EditKey::Right => if cursor < buffer.len() {
            (buffer, cursor + 1)
        } else {
            (buffer, cursor)
        },
        EditKey::Home => (buffer, 0),
        EditKey::End => (buffer, buffer.len()),
        EditKey::Char(c) => (buffer.insert(cursor as int, c), cursor + 1),
        _ => (buffer, cursor),
    }
}

/// Typing a character and then deleting it with Backspace restores the
/// text and the cursor.
pub proof fn law_insert_then_backspace(buffer: Seq<char>, cursor: nat, c: char)
    requires
        cursor <= buffer.len(),
    ensures
        ({
            let (b1, k1) = input_key_effect(buffer, cursor, EditKey::Char(c));
            input_key_effect(b1, k1, EditKey::Backspace) == (buffer, cursor)
        }),
{
    assert(buffer.insert(cursor as int, c).remove(cursor as int) =~= buffer);
}

/// Handles a key while a popup is active.
///
/// In an input popup, Enter confirms with the text, Esc cancels, and the
/// editing keys change the text and cursor. In a confirmation popup,
/// Enter/`y`/`Y` confirm and Esc/`n`/`N` cancel.
pub fn handle_popup_key(popup: &mut PopupState, code: EditKey) -> (r: PopupResult)
    requires
        old(popup).wf(),
    ensures
        final(popup).wf(),
        final(popup).action == old(popup).action,
        final(popup).preferred_height == old(popup).preferred_height,
        final(popup).is_info == old(popup).is_info,
        match old(popup).mode {
            PopupMode::Input { title, buffer, cursor } => match code {
                EditKey::Enter => final(popup).mode == old(popup).mode && (
                r matches PopupResult::Confirmed(Some(t)) && t@ == buffer@),
                EditKey::Esc => final(popup).mode == old(popup).mode && r is Cancelled,
                _ => r is StillActive && (final(popup).mode matches PopupMode::Input {
                    title: t2,
                    buffer: b2,
                    cursor: c2,
                } && t2 == title && (b2@, c2 as nat) == input_key_effect(buffer@, cursor as nat, code)),
            },
            PopupMode::Confirm { .. } => final(popup).mode == old(popup).mode && match code {
                EditKey::Enter | EditKey::Char('y') | EditKey::Char('Y') => r matches PopupResult::Confirmed(None),
                EditKey::Esc | EditKey::Char('n') | EditKey::Char('N') => r is Cancelled,
                _ => r is StillActive,
            },
        },
{
    match &mut popup.mode {
        PopupMode::Input { buffer, cursor, .. } => {
            match code {
                EditKey::Enter => PopupResult::Confirmed(Some(buffer.clone())),
                EditKey::Esc => PopupResult::Cancelled,
                EditKey::Backspace => {
                    if *cursor > 0 {
                        let mut v = str_chars(buffer.as_str());
                        v.remove(*cursor - 1);
                        *buffer = chars_to_string(&v);
                        *cursor = *cursor - 1;
                    }
                    PopupResult::StillActive
                },
                EditKey::Delete => {
                    let mut v = str_chars(buffer.as_str());
                    if *cursor < v.len() {
                        v.remove(*cursor);
                        *buffer = chars_to_string(&v);
                    }
                    PopupResult::StillActive
                },
                EditKey::Left => {
                    if *cursor > 0 {
                        *cursor = *cursor - 1;
                    }
                    PopupResult::StillActive
                },
                EditKey::Right => {
                    if *cursor < buffer.as_str().unicode_len() {
                        *cursor = *cursor + 1;
                    }
                    PopupResult::StillActive
                },
                EditKey::Home => {
                    *cursor = 0;
                    PopupResult::StillActive
                },
                EditKey::End => {
                    *cursor = buffer.as_str().unicode_len();
                    PopupResult::StillActive
                },
                EditKey::Char(c) => {
                    let mut v = str_chars(buffer.as_str());
                    v.insert(*cursor, c);
                    let n = v.len();
                    *buffer = chars_to_string(&v);
                    assert(*cursor < n);
                    *cursor = *cursor + 1;
                    PopupResult::StillActive
                },
                EditKey::Other => PopupResult::StillActive,
            }
        },
        PopupMode::Confirm { .. } => match code {
            EditKey::Enter | EditKey::Char('y') | EditKey::Char('Y') => PopupResult::Confirmed(None),
            EditKey::Esc | EditKey::Char('n') | EditKey::Char('N') => PopupResult::Cancelled,
            _ => PopupResult::StillActive,
        },
    }
}

} // verus!

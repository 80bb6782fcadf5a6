//! Protocol values shared by the frontends (terminal, web, one-shot
//! commands), and their conversion from the player's state.

use vstd::prelude::*;
use crate::browser::{
    build_listing, entry_views, item_views, listing, BrowserEntry as ListingEntry, EntryModel, ListedItem,
};
use crate::library::{is_audio_file, is_audio_path};
use crate::paths::{path_file_stem, spec_file_stem};
use crate::player::PlaybackState;
use crate::playlist::{string_views, Playlist, RepeatMode};

verus! {

broadcast use vstd::string::group_string_axioms;

/// Repeat mode values for serialization.
#[derive(Debug, Clone, Copy, PartialEq, Eq, Structural)]
pub enum RepeatModeValue {
    Off,
    One,
    All,
}

/// Playback state values.
#[derive(Debug, Clone, Copy, PartialEq, Eq, Structural)]
pub enum PlaybackStateValue {
    Stopped,
    Playing,
    Paused,
}

/// A track entry in the playlist (lightweight, for list display).
#[derive(Debug, Clone)]
pub struct TrackEntry {
    pub index: usize,
    pub path: String,
    pub display_name: String,
}

/// A file browser entry.
#[derive(Debug, Clone)]
pub struct BrowserEntry {
    pub name: String,
    pub path: String,
    pub is_dir: bool,
    pub is_audio: bool,
}

/// Snapshot of the file browser state.
#[derive(Debug, Clone)]
pub struct BrowserSnapshot {
    pub current_dir: String,
    pub entries: Vec<BrowserEntry>,
    pub selected_index: usize,
}

/// Snapshot of application settings (for display in frontends).
#[derive(Debug, Clone)]
pub struct SettingsSnapshot {
    pub discord_enabled: bool,
    pub smtc_enabled: bool,
}

impl Default for SettingsSnapshot {
    fn default() -> (r: Self)
        ensures
            !r.discord_enabled,
            !r.smtc_enabled,
    {
        SettingsSnapshot { discord_enabled: false, smtc_enabled: false }
    }
}

/// The protocol value of a repeat mode.
pub open spec fn repeat_value_of(m: RepeatMode) -> RepeatModeValue {
    match m {
        RepeatMode::Off => RepeatModeValue::Off,
        RepeatMode::One => RepeatModeValue::One,
        RepeatMode::All => RepeatModeValue::All,
    }
}

/// The repeat mode of a protocol value.
pub open spec fn repeat_mode_of(v: RepeatModeValue) -> RepeatMode {
    match v {
        RepeatModeValue::Off => RepeatMode::Off,
        RepeatModeValue::One => RepeatMode::One,
        RepeatModeValue::All => RepeatMode::All,
    }
}

/// Converts a repeat mode to its protocol value.
pub fn repeat_mode_to_value(mode: RepeatMode) -> (r: RepeatModeValue)
    ensures
        r == repeat_value_of(mode),
{
    match mode {
        RepeatMode::Off => RepeatModeValue::Off,
        RepeatMode::One => RepeatModeValue::One,
        RepeatMode::All => RepeatModeValue::All,
    }
}

/// Converts a protocol value to a repeat mode.
pub fn repeat_mode_from_value(value: RepeatModeValue) -> (r: RepeatMode)
    ensures
        r == repeat_mode_of(value),
{
    match value {
        RepeatModeValue::Off => RepeatMode::Off,
        RepeatModeValue::One => RepeatMode::One,
        RepeatModeValue::All => RepeatMode::All,
    }
}

/// The repeat mode that follows `m` when cycling: off, one, all.
pub open spec fn next_repeat(m: RepeatMode) -> RepeatMode {
    match m {
        RepeatMode::Off => RepeatMode::One,
        RepeatMode::One => RepeatMode::All,
        RepeatMode::All => RepeatMode::Off,
    }
}

/// The repeat modes cycle off, one, all, and back to off; each converts
/// to the protocol value of the same name and back.
pub proof fn law_repeat_order(m: RepeatMode)
    ensures
        next_repeat(RepeatMode::Off) == RepeatMode::One,
        next_repeat(RepeatMode::One) == RepeatMode::All,
        next_repeat(RepeatMode::All) == RepeatMode::Off,
        repeat_value_of(RepeatMode::Off) == RepeatModeValue::Off,
        repeat_value_of(RepeatMode::One) == RepeatModeValue::One,
        repeat_value_of(RepeatMode::All) == RepeatModeValue::All,
        repeat_mode_of(repeat_value_of(m)) == m,
{
}

/// Cycling the repeat mode three times comes back to where it started:
/// off, one, all, off.
pub proof fn law_repeat_cycle(m: RepeatMode)
    ensures
        next_repeat(next_repeat(next_repeat(m))) == m,
        next_repeat(RepeatMode::Off) == RepeatMode::One,
        next_repeat(RepeatMode::One) == RepeatMode::All,
        next_repeat(RepeatMode::All) == RepeatMode::Off,
{
}

/// The repeat mode after `mode` in the cycle off, one, all.
pub fn cycle_repeat(mode: RepeatMode) -> (r: RepeatMode)
    ensures
        r == next_repeat(mode),
{
    match mode {
        RepeatMode::Off => RepeatMode::One,
        RepeatMode::One => RepeatMode::All,
        RepeatMode::All => RepeatMode::Off,
    }
}

/// The protocol value of a playback state.
pub open spec fn playback_value_of(s: PlaybackState) -> PlaybackStateValue {
    match s {
        PlaybackState::Stopped => PlaybackStateValue::Stopped,
        PlaybackState::Playing => PlaybackStateValue::Playing,
        PlaybackState::Paused => PlaybackStateValue::Paused,
    }
}

/// Converts a playback state to its protocol value.
pub fn playback_state_to_value(state: PlaybackState) -> (r: PlaybackStateValue)
    ensures
        r == playback_value_of(state),
{
    match state {
        PlaybackState::Stopped => PlaybackStateValue::Stopped,
        PlaybackState::Playing => PlaybackStateValue::Playing,
        PlaybackState::Paused => PlaybackStateValue::Paused,
    }
}

/// The name shown for a track: its file stem, or the whole path when it
/// has none.
pub open spec fn display_name_of(path: Seq<char>) -> Seq<char> {
    match spec_file_stem(path) {
        Some(stem) => stem,
        None => path,
    }
}

/// Builds the list entries of a playlist: each track's index, path and
/// display name.
pub fn build_track_entries(playlist: &Playlist) -> (r: Vec<TrackEntry>)
    ensures
        r@.len() == playlist@.tracks.len(),
        forall|i: int|
            0 <= i < r@.len() ==> {
                &&& (#[trigger] r@[i]).index == i
                &&& r@[i].path@ == playlist@.tracks[i]
                &&& r@[i].display_name@ == display_name_of(playlist@.tracks[i])
            },
{
    let tracks = playlist.tracks();
    let n = tracks.len();
    let mut r: Vec<TrackEntry> = Vec::new();
    let mut i: usize = 0;
    while i < n
        invariant
            i <= n,
            n == tracks@.len(),
            string_views(tracks@) == playlist@.tracks,
            r@.len() == i,
            forall|j: int|
                0 <= j < i ==> {
                    &&& (#[trigger] r@[j]).index == j
                    &&& r@[j].path@ == playlist@.tracks[j]
                    &&& r@[j].display_name@ == display_name_of(playlist@.tracks[j])
                },
        decreases n - i,
    {
        let path = &tracks[i];
        proof {
            assert(string_views(tracks@)[i as int] == tracks@[i as int]@);
        }
        let display_name = match path_file_stem(path.as_str()) {
            Some(stem) => stem,
            None => path.clone(),
        };
        r.push(TrackEntry { index: i, path: path.clone(), display_name });
        i = i + 1;
    }
    r
}

/// Lightweight browser state for remote clients: a directory listing
/// (hidden entries never shown) and a selection.
pub struct BrowserState {
    current_dir: String,
    entries: Vec<ListingEntry>,
    selected: usize,
}

/// The abstract state of a [`BrowserState`].
pub struct BrowserStateView {
    pub current_dir: Seq<char>,
    pub entries: Seq<EntryModel>,
    pub selected: nat,
}

impl View for BrowserState {
    type V = BrowserStateView;

    closed spec fn view(&self) -> BrowserStateView {
        BrowserStateView {
            current_dir: self.current_dir@,
            entries: entry_views(self.entries@),
            selected: self.selected as nat,
        }
    }
}

impl BrowserState {
    /// A browser at `path`, whose raw entries are `items`.
    pub fn new(path: String, items: Vec<ListedItem>) -> (r: Self)
        ensures
            r@.current_dir == path@,
            r@.entries == listing(path@, item_views(items@), false, false),
            r@.selected == 0,
    {
        let entries = build_listing(path.as_str(), &items, false, false);
        BrowserState { current_dir: path, entries, selected: 0 }
    }

    /// Moves to the directory `dir` (which the caller found to be a
    /// directory) with raw entries `items`.
    pub fn navigate_to(&mut self, dir: String, items: Vec<ListedItem>)
        ensures
            final(self)@.current_dir == dir@,
            final(self)@.entries == listing(dir@, item_views(items@), false, false),
            final(self)@.selected == 0,
    {
        self.entries = build_listing(dir.as_str(), &items, false, false);
        self.current_dir = dir;
        self.selected = 0;
    }

    /// The current directory.
    pub fn current_dir(&self) -> (r: &str)
        ensures
            r@ == self@.current_dir,
    {
        self.current_dir.as_str()
    }

    /// The entry at `index`, if there is one.
    pub fn entry(&self, index: usize) -> (r: Option<&ListingEntry>)
        ensures
            match r {
                Some(e) => index < self@.entries.len() && e@ == self@.entries[index as int],
                None => index >= self@.entries.len(),
            },
    {
        if index < self.entries.len() {
            Some(&self.entries[index])
        } else {
            None
        }
    }

    /// A snapshot of the browser for clients.
    pub fn to_snapshot(&self) -> (r: BrowserSnapshot)
        ensures
            r.current_dir@ == self@.current_dir,
            r.selected_index == self@.selected,
            r.entries@.len() == self@.entries.len(),
            forall|i: int|
                0 <= i < r.entries@.len() ==> {
                    &&& (#[trigger] r.entries@[i]).name@ == self@.entries[i].name
                    &&& r.entries@[i].path@ == self@.entries[i].path
                    &&& r.entries@[i].is_dir == self@.entries[i].is_dir
                    &&& r.entries@[i].is_audio == self@.entries[i].is_audio
                },
    {
        let n = self.entries.len();
        let mut entries: Vec<BrowserEntry> = Vec::new();
        let mut i: usize = 0;
        while i < n
            invariant
                i <= n,
                n == self.entries@.len(),
                entries@.len() == i,
                forall|j: int|
                    0 <= j < i ==> {
                        &&& (#[trigger] entries@[j]).name@ == self@.entries[j].name
                        &&& entries@[j].path@ == self@.entries[j].path
                        &&& entries@[j].is_dir == self@.entries[j].is_dir
                        &&& entries@[j].is_audio == self@.entries[j].is_audio
                    },
            decreases n - i,
        {
            let e = &self.entries[i];
            proof {
                assert(entry_views(self.entries@)[i as int] == self.entries@[i as int]@);
            }
            entries.push(
                BrowserEntry {
                    name: e.name.clone(),
                    path: e.path.clone(),
                    is_dir: e.is_dir,
                    is_audio: e.is_audio,
                },
            );
            i = i + 1;
        }
        BrowserSnapshot {
            current_dir: self.current_dir.clone(),
            entries,
            selected_index: self.selected,
        }
    }

    /// Whether a path names an audio file.
    pub fn is_audio_file(path: &str) -> (r: bool)
        ensures
            r == is_audio_path(path@),
    {
        is_audio_file(path)
    }
}

} // verus!

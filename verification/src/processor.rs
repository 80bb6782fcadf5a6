//! The command processor's decisions: what a control command does to the
//! play queue, and what the processor then has the player and the clients
//! do. Driving the audio player and sending messages is left to the
//! caller.

use vstd::prelude::*;
use crate::paths::{opt_str_view, paths_equal, same_opt_path};
use crate::player::{MediaControlCommand, PlaybackState};
use crate::playlist::{
    dedup_seq, is_first_occurrence, moved, moved_index, Playlist, PlaylistView,
};
use crate::protocol::{cycle_repeat, next_repeat, repeat_mode_from_value, repeat_mode_of, RepeatModeValue};
use crate::playlist::string_views;
use crate::text::{decimal, push_decimal, push_str};
use crate::command::RepeatModeArg;

verus! {

broadcast use vstd::string::group_string_axioms;

/// A control command that works on the play queue.
#[derive(Debug, Clone, Copy, PartialEq, Eq, Structural)]
pub enum QueueCommand {
    /// Make the track at `index` current and play it.
    PlayTrack { index: usize },
    /// Remove the track at `index`.
    RemoveTrack { index: usize },
    /// Stop playback and empty the queue.
    ClearPlaylist,
    /// Turn shuffle on or off.
    ToggleShuffle,
    /// Set the repeat mode.
    SetRepeat { mode: RepeatModeValue },
    /// Step the repeat mode: off, one, all, off.
    CycleRepeat,
    /// Move the track at `from` to `to`.
    MoveTrack { from: usize, to: usize },
    /// Remove duplicate tracks.
    Dedup,
}

/// The queue request for a `/repeat` command: a named mode sets that
/// mode, no mode steps to the next one.
pub fn repeat_request(mode: Option<RepeatModeArg>) -> (r: QueueCommand)
    ensures
        r == match mode {
            Some(RepeatModeArg::Off) => QueueCommand::SetRepeat { mode: RepeatModeValue::Off },
            Some(RepeatModeArg::One) => QueueCommand::SetRepeat { mode: RepeatModeValue::One },
            Some(RepeatModeArg::All) => QueueCommand::SetRepeat { mode: RepeatModeValue::All },
            None => QueueCommand::CycleRepeat,
        },
{
    match mode {
        Some(RepeatModeArg::Off) => QueueCommand::SetRepeat { mode: RepeatModeValue::Off },
        Some(RepeatModeArg::One) => QueueCommand::SetRepeat { mode: RepeatModeValue::One },
        Some(RepeatModeArg::All) => QueueCommand::SetRepeat { mode: RepeatModeValue::All },
        None => QueueCommand::CycleRepeat,
    }
}

/// What the processor has the player and the clients do after a queue
/// command, in this order: stop, play, send the track list, send the
/// status message.
#[derive(Debug)]
pub struct QueueOutcome {
    /// Whether playback is stopped.
    pub stop: bool,
    /// The track the player starts, if any.
    pub play: Option<String>,
    /// Whether the clients are sent the new track list.
    pub playlist_changed: bool,
    /// The status message sent to the clients, if any.
    pub status: Option<String>,
}

/// The status message after a dedup that removed `n` tracks.
pub open spec fn dedup_message(n: nat) -> Seq<char> {
    "Removed "@ + decimal(n) + " duplicate(s)"@
}

/// Builds the status message after a dedup.
fn dedup_status(n: usize) -> (r: String)
    ensures
        r@ == dedup_message(n as nat),
{
    let mut s = String::new();
    push_str(&mut s, "Removed ");
    push_decimal(&mut s, n as u64);
    push_str(&mut s, " duplicate(s)");
    s
}

/// Applies a queue command to the playlist, and says what the player and
/// the clients are to be told.
pub fn apply_queue_command(playlist: &mut Playlist, cmd: QueueCommand) -> (r: QueueOutcome)
    requires
        old(playlist).wf(),
    ensures
        final(playlist).wf(),
        match cmd {
            QueueCommand::PlayTrack { index } => {
                &&& !r.stop
                &&& r.playlist_changed
                &&& r.status is None
                &&& if index < old(playlist)@.tracks.len() {
                    &&& final(playlist)@ == (PlaylistView {
                        current: Some(index),
                        ..old(playlist)@
                    })
                    &&& opt_str_view(r.play) == Some(old(playlist)@.tracks[index as int])
                } else {
                    &&& final(playlist)@.same_as(old(playlist)@)
                    &&& r.play is None
                }
            },
            QueueCommand::RemoveTrack { index } => {
                &&& !r.stop
                &&& r.play is None
                &&& r.playlist_changed
                &&& r.status is None
                &&& if index < old(playlist)@.tracks.len() {
                    &&& final(playlist)@.tracks == old(playlist)@.tracks.remove(index as int)
                    &&& final(playlist)@.current == match old(playlist)@.current {
                        Some(c) => if index < c {
                            Some((c - 1) as usize)
                        } else if index == c {
                            None
                        } else {
                            Some(c)
                        },
                        None => None,
                    }
                    &&& final(playlist)@.reshuffled_from(old(playlist)@)
                } else {
                    final(playlist)@.same_as(old(playlist)@)
                }
            },
            QueueCommand::ClearPlaylist => {
                &&& r.stop
                &&& r.play is None
                &&& r.playlist_changed
                &&& r.status is None
                &&& final(playlist)@.tracks == Seq::<Seq<char>>::empty()
                &&& final(playlist)@.current is None
                &&& final(playlist)@.shuffle == old(playlist)@.shuffle
                &&& final(playlist)@.repeat == old(playlist)@.repeat
            },
            QueueCommand::ToggleShuffle => {
                &&& !r.stop
                &&& r.play is None
                &&& !r.playlist_changed
                &&& r.status is None
                &&& final(playlist)@.shuffle == !old(playlist)@.shuffle
                &&& final(playlist)@.tracks == old(playlist)@.tracks
                &&& final(playlist)@.current == old(playlist)@.current
                &&& final(playlist)@.repeat == old(playlist)@.repeat
            },
            QueueCommand::SetRepeat { mode } => {
                &&& !r.stop
                &&& r.play is None
                &&& !r.playlist_changed
                &&& r.status is None
                &&& final(playlist)@ == (PlaylistView {
                    repeat: repeat_mode_of(mode),
                    ..old(playlist)@
                })
            },
            QueueCommand::CycleRepeat => {
                &&& !r.stop
                &&& r.play is None
                &&& !r.playlist_changed
                &&& r.status is None
                &&& final(playlist)@ == (PlaylistView {
                    repeat: next_repeat(old(playlist)@.repeat),
                    ..old(playlist)@
                })
            },
            QueueCommand::MoveTrack { from, to } => {
                &&& !r.stop
                &&& r.play is None
                &&& r.playlist_changed
                &&& r.status is None
                &&& if from < old(playlist)@.tracks.len() && to < old(playlist)@.tracks.len()
                    && from != to {
                    &&& final(playlist)@.tracks == moved(
                        old(playlist)@.tracks,
                        from as int,
                        to as int,
                    )
                    &&& final(playlist)@.current == match old(playlist)@.current {
                        Some(c) => Some(moved_index(c as int, from as int, to as int) as usize),
                        None => None,
                    }
                    &&& final(playlist)@.reshuffled_from(old(playlist)@)
                } else {
                    final(playlist)@.same_as(old(playlist)@)
                }
            },
            QueueCommand::Dedup => {
                let removed = old(playlist)@.tracks.len() - final(playlist)@.tracks.len();
                &&& !r.stop
                &&& r.play is None
                &&& final(playlist)@.tracks == dedup_seq(old(playlist)@.tracks)
                &&& final(playlist)@.current == match old(playlist)@.current {
                    Some(c) => if is_first_occurrence(old(playlist)@.tracks, c as int) {
                        Some(dedup_seq(old(playlist)@.tracks.take(c as int)).len() as usize)
                    } else {
                        None
                    },
                    None => None,
                }
                &&& r.playlist_changed == (removed > 0)
                &&& if removed > 0 {
                    opt_str_view(r.status) == Some(dedup_message(removed as nat))
                } else {
                    r.status is None
                }
            },
        },
{
    match cmd {
        QueueCommand::PlayTrack { index } => {
            let track = match playlist.jump_to(index) {
                Some(t) => Some(t.clone()),
                None => None,
            };
            QueueOutcome { stop: false, play: track, playlist_changed: true, status: None }
        },
        QueueCommand::RemoveTrack { index } => {
            let _ = playlist.remove(index);
            QueueOutcome { stop: false, play: None, playlist_changed: true, status: None }
        },
        QueueCommand::ClearPlaylist => {
            playlist.clear();
            QueueOutcome { stop: true, play: None, playlist_changed: true, status: None }
        },
        QueueCommand::ToggleShuffle => {
            let new_val = !playlist.shuffle();
            playlist.set_shuffle(new_val);
            QueueOutcome { stop: false, play: None, playlist_changed: false, status: None }
        },
        QueueCommand::SetRepeat { mode } => {
            playlist.set_repeat(repeat_mode_from_value(mode));
            QueueOutcome { stop: false, play: None, playlist_changed: false, status: None }
        },
        QueueCommand::CycleRepeat => {
            let next = cycle_repeat(playlist.repeat());
            playlist.set_repeat(next);
            QueueOutcome { stop: false, play: None, playlist_changed: false, status: None }
        },
        QueueCommand::MoveTrack { from, to } => {
            let _ = playlist.move_track(from, to);
            QueueOutcome { stop: false, play: None, playlist_changed: true, status: None }
        },
        QueueCommand::Dedup => {
            let removed = playlist.dedup();
            if removed > 0 {
                QueueOutcome {
                    stop: false,
                    play: None,
                    playlist_changed: true,
                    status: Some(dedup_status(removed)),
                }
            } else {
                QueueOutcome { stop: false, play: None, playlist_changed: false, status: None }
            }
        },
    }
}

/// Names joined with `, ` between them.
pub open spec fn join_names(names: Seq<Seq<char>>) -> Seq<char>
    decreases names.len(),
{
    if names.len() == 0 {
        Seq::empty()
    } else if names.len() == 1 {
        names[0]
    } else {
        join_names(names.drop_last()) + ", "@ + names.last()
    }
}

/// The status message that lists saved playlists: `empty` when there are
/// none, else `prefix` followed by the names.
pub open spec fn list_message(names: Seq<Seq<char>>, empty: Seq<char>, prefix: Seq<char>) -> Seq<char> {
    if names.len() == 0 {
        empty
    } else {
        prefix + join_names(names)
    }
}

/// Builds `prefix` followed by the names joined with `, `.
fn joined(names: &Vec<String>, prefix: &str) -> (r: String)
    ensures
        r@ == prefix@ + join_names(string_views(names@)),
{
    let ghost ns = string_views(names@);
    let mut out = String::new();
    push_str(&mut out, prefix);
    let n = names.len();
    let mut i: usize = 0;
    proof {
        assert(ns.take(0) =~= Seq::<Seq<char>>::empty());
        assert(out@ =~= prefix@ + join_names(ns.take(0)));
    }
    while i < n
        invariant
            i <= n,
            n == names@.len(),
            ns == string_views(names@),
            out@ == prefix@ + join_names(ns.take(i as int)),
        decreases n - i,
    {
        proof {
            assert(ns[i as int] == names@[i as int]@);
            assert(ns.take(i + 1).drop_last() =~= ns.take(i as int));
            assert(ns.take(i + 1).last() == ns[i as int]);
        }
        if i > 0 {
            push_str(&mut out, ", ");
        }
        push_str(&mut out, names[i].as_str());
        proof {
            if i == 0 {
                assert(ns.take(1) =~= seq![ns[0]]);
                assert(join_names(ns.take(1)) == ns[0]);
            }
            assert(out@ =~= prefix@ + join_names(ns.take(i + 1)));
        }
        i = i + 1;
    }
    proof {
        assert(ns.take(n as int) =~= ns);
    }
    out
}

/// The status message listing the saved M3U playlists.
pub fn playlists_message(names: &Vec<String>) -> (r: String)
    ensures
        r@ == list_message(string_views(names@), "No saved playlists"@, "Playlists: "@),
{
    if names.len() == 0 {
        "No saved playlists".to_string()
    } else {
        joined(names, "Playlists: ")
    }
}

/// The status message listing the saved directory playlists.
pub fn dir_playlists_message(names: &Vec<String>) -> (r: String)
    ensures
        r@ == list_message(
            string_views(names@),
            "No saved directory playlists"@,
            "Dir Playlists: "@,
        ),
{
    if names.len() == 0 {
        "No saved directory playlists".to_string()
    } else {
        joined(names, "Dir Playlists: ")
    }
}

/// Starts playback from the queue: the current track, or else the first
/// track, which then becomes current. Returns the track to play; `None`
/// for an empty queue.
pub fn play_selected(playlist: &mut Playlist) -> (r: Option<String>)
    requires
        old(playlist).wf(),
    ensures
        final(playlist).wf(),
        old(playlist)@.tracks.len() == 0 ==> r is None && final(playlist)@ == old(playlist)@,
        old(playlist)@.tracks.len() > 0 ==> match old(playlist)@.current_track() {
            Some(t) => opt_str_view(r) == Some(t) && final(playlist)@ == old(playlist)@,
            None => opt_str_view(r) == Some(old(playlist)@.tracks[0]) && final(playlist)@.current
                == (if old(playlist)@.current is None {
                Some(0usize)
            } else {
                old(playlist)@.current
            }) && final(playlist)@.tracks == old(playlist)@.tracks,
        },
{
    let track = match playlist.current() {
        Some(t) => Some(t.clone()),
        None => if !playlist.is_empty() {
            let ts = playlist.tracks();
            proof {
                assert(crate::playlist::string_views(ts@)[0] == ts@[0]@);
            }
            Some(ts[0].clone())
        } else {
            None
        },
    };
    if track.is_some() {
        if playlist.current_index().is_none() && !playlist.is_empty() {
            let _ = playlist.jump_to(0);
        }
    }
    track
}

/// What the player is asked to do for a media key.
#[derive(Debug, Clone, Copy, PartialEq, Eq, Structural)]
pub enum MediaRequest {
    Play,
    Resume,
    Pause,
    TogglePlayback,
    Stop,
    Next,
    Previous,
}

/// The request for a media key: the system's Play resumes a paused track
/// instead of starting it again.
pub fn media_request(cmd: MediaControlCommand, state: PlaybackState) -> (r: MediaRequest)
    ensures
        r == match cmd {
            MediaControlCommand::Play => if state == PlaybackState::Paused {
                MediaRequest::Resume
            } else {
                MediaRequest::Play
            },
            MediaControlCommand::Pause => MediaRequest::Pause,
            MediaControlCommand::Toggle => MediaRequest::TogglePlayback,
            MediaControlCommand::Stop => MediaRequest::Stop,
            MediaControlCommand::Next => MediaRequest::Next,
            MediaControlCommand::Previous => MediaRequest::Previous,
        },
{
    match cmd {
        MediaControlCommand::Play => if state == PlaybackState::Paused {
            MediaRequest::Resume
        } else {
            MediaRequest::Play
        },
        MediaControlCommand::Pause => MediaRequest::Pause,
        MediaControlCommand::Toggle => MediaRequest::TogglePlayback,
        MediaControlCommand::Stop => MediaRequest::Stop,
        MediaControlCommand::Next => MediaRequest::Next,
        MediaControlCommand::Previous => MediaRequest::Previous,
    }
}

/// What the processor last told the clients about the player.
pub struct Reported {
    pub state: PlaybackState,
    pub track: Option<String>,
    pub shuffle: bool,
    pub repeat: crate::playlist::RepeatMode,
}

/// Which updates the processor sends on a tick.
#[derive(Debug, Clone, Copy, PartialEq, Eq, Structural)]
pub struct Changes {
    /// The playback state changed.
    pub state: bool,
    /// The track changed.
    pub track: bool,
    /// The volume changed.
    pub volume: bool,
    /// Shuffle or repeat changed.
    pub mode: bool,
    /// The position is due (about twice a second while playing).
    pub position: bool,
    /// Visualizer data is due (about ten times a second while playing,
    /// when there is data).
    pub visualizer: bool,
}

/// The updates due on a tick: those whose value differs from what was
/// last reported (the caller compares the volumes; tracks are compared as
/// paths), and, while playing,
/// the position after 500 ms and the visualizer data after 100 ms.
pub fn changes_to_send(
    last: &Reported,
    now: &Reported,
    volume_changed: bool,
    ms_since_position: u64,
    ms_since_visualizer: u64,
    has_visualizer_data: bool,
) -> (r: Changes)
    ensures
        r.state == (last.state != now.state),
        r.track == !same_opt_path(opt_str_view(last.track), opt_str_view(now.track)),
        r.volume == volume_changed,
        r.mode == (last.shuffle != now.shuffle || last.repeat != now.repeat),
        r.position == (now.state == PlaybackState::Playing && ms_since_position >= 500),
        r.visualizer == (now.state == PlaybackState::Playing && ms_since_visualizer >= 100
            && has_visualizer_data),
{
    let track = match (&last.track, &now.track) {
        (Some(a), Some(b)) => !paths_equal(a.as_str(), b.as_str()),
        (None, None) => false,
        _ => true,
    };
    let playing = now.state == PlaybackState::Playing;
    Changes {
        state: last.state != now.state,
        track,
        volume: volume_changed,
        mode: last.shuffle != now.shuffle || last.repeat != now.repeat,
        position: playing && ms_since_position >= 500,
        visualizer: playing && ms_since_visualizer >= 100 && has_visualizer_data,
    }
}

} // verus!

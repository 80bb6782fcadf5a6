//! Decisions of the desktop integrations (chat presence, system media
//! controls): what to show for a track and when to update. Talking to the
//! services themselves is left to the caller.

use vstd::prelude::*;
use crate::paths::{
    opt_paths_equal, opt_ref_view, opt_str_view, path_file_stem, same_opt_path, spec_file_stem,
};
use crate::player::{MediaControlCommand, PlaybackState};
use crate::processor::MediaRequest;
use crate::text::{push_str, starts_with_chars, str_chars, sub_chars, chars_to_string};

verus! {

broadcast use vstd::string::group_string_axioms;

/// The title shown for a track: its tag title, or else its file name
/// without extension.
pub fn track_title(tag_title: Option<String>, path: &str) -> (r: Option<String>)
    ensures
        opt_str_view(r) == match tag_title {
            Some(t) => Some(t@),
            None => spec_file_stem(path@),
        },
{
    match tag_title {
        Some(t) => Some(t),
        None => path_file_stem(path),
    }
}

/// The two lines of the chat presence for a track: the title, and the
/// artist followed by ` - ` and the album when there is one. A missing
/// title or artist shows as `Unknown Track` or `Unknown Artist`.
pub fn presence_text(title: Option<&str>, artist: Option<&str>, album: Option<&str>) -> (r: (
    String,
    String,
))
    ensures
        r.0@ == match title {
            Some(t) => t@,
            None => "Unknown Track"@,
        },
        r.1@ == (match artist {
            Some(a) => a@,
            None => "Unknown Artist"@,
        }) + match album {
            Some(b) => " - "@ + b@,
            None => Seq::<char>::empty(),
        },
{
    let details = match title {
        Some(t) => t.to_string(),
        None => "Unknown Track".to_string(),
    };
    let mut state = String::new();
    match artist {
        Some(a) => push_str(&mut state, a),
        None => push_str(&mut state, "Unknown Artist"),
    }
    match album {
        Some(b) => {
            push_str(&mut state, " - ");
            push_str(&mut state, b);
            proof {
                assert(state@ =~= (match artist {
                    Some(a) => a@,
                    None => "Unknown Artist"@,
                }) + (" - "@ + b@));
            }
        },
        None => {
            proof {
                assert(state@ =~= (match artist {
                    Some(a) => a@,
                    None => "Unknown Artist"@,
                }) + Seq::<char>::empty());
            }
        },
    }
    (details, state)
}

/// What the presence worker does on a tick.
#[derive(Debug, Clone, Copy, PartialEq, Eq, Structural)]
pub enum PresenceStep {
    /// Clear the presence and forget the track.
    Clear,
    /// Show the current track and remember it.
    Show,
    /// Remember the current track (there is none to show).
    Forget,
    /// Nothing to do.
    Nothing,
}

/// The presence worker's step, given the playback state, the track it
/// showed last and the current track: the presence is cleared when
/// playback is not running, and updated when the track changed (is not
/// the same path).
pub fn presence_step(state: PlaybackState, last: Option<&str>, current: Option<&str>) -> (r: PresenceStep)
    ensures
        r == if state != PlaybackState::Playing {
            if last is Some {
                PresenceStep::Clear
            } else {
                PresenceStep::Nothing
            }
        } else if !same_opt_path(opt_ref_view(last), opt_ref_view(current)) {
            if current is Some {
                PresenceStep::Show
            } else {
                PresenceStep::Forget
            }
        } else {
            PresenceStep::Nothing
        },
{
    if state != PlaybackState::Playing {
        if last.is_some() {
            PresenceStep::Clear
        } else {
            PresenceStep::Nothing
        }
    } else {
        let same = opt_paths_equal(last, current);
        if !same {
            if current.is_some() {
                PresenceStep::Show
            } else {
                PresenceStep::Forget
            }
        } else {
            PresenceStep::Nothing
        }
    }
}

/// What the media controls worker updates on a tick, given the state and
/// track it last sent, whether an update is forced, and the current state
/// and track: the playback state when it changed, and the track's details
/// when they are forced or the track changed (is not the same path). The
/// worker then remembers the current state, and, when it updated the
/// details, the current track, and no longer forces an update.
pub fn media_controls_step(
    last_state: Option<PlaybackState>,
    last_track: Option<&str>,
    force: bool,
    state: PlaybackState,
    track: Option<&str>,
) -> (r: (bool, bool))
    ensures
        r.0 == (last_state != Some(state)),
        r.1 == (force || !same_opt_path(opt_ref_view(last_track), opt_ref_view(track))),
{
    let state_changed = match last_state {
        Some(s) => s != state,
        None => true,
    };
    let details = force || !opt_paths_equal(last_track, track);
    (state_changed, details)
}

/// What the integrations worker does with one integration when new
/// settings arrive.
#[derive(Debug, Clone, Copy, PartialEq, Eq, Structural)]
pub enum ToggleStep {
    /// It was off and is turned on: start it (the media controls also
    /// force an update of the track's details).
    Enable,
    /// It was on and is turned off: stop it and forget what it last showed.
    Disable,
    /// The setting did not change.
    Keep,
}

/// The step for an integration that was `enabled` when the settings say
/// `wanted`.
pub fn toggle_step(enabled: bool, wanted: bool) -> (r: ToggleStep)
    ensures
        r == if enabled == wanted {
            ToggleStep::Keep
        } else if wanted {
            ToggleStep::Enable
        } else {
            ToggleStep::Disable
        },
{
    if enabled == wanted {
        ToggleStep::Keep
    } else if wanted {
        ToggleStep::Enable
    } else {
        ToggleStep::Disable
    }
}

/// The request the integrations worker sends for a system media key:
/// Play and the play/pause toggle both toggle playback.
pub fn integration_media_request(cmd: MediaControlCommand) -> (r: MediaRequest)
    ensures
        r == match cmd {
            MediaControlCommand::Play | MediaControlCommand::Toggle => MediaRequest::TogglePlayback,
            MediaControlCommand::Pause => MediaRequest::Pause,
            MediaControlCommand::Stop => MediaRequest::Stop,
            MediaControlCommand::Next => MediaRequest::Next,
            MediaControlCommand::Previous => MediaRequest::Previous,
        },
{
    match cmd {
        MediaControlCommand::Play | MediaControlCommand::Toggle => MediaRequest::TogglePlayback,
        MediaControlCommand::Pause => MediaRequest::Pause,
        MediaControlCommand::Stop => MediaRequest::Stop,
        MediaControlCommand::Next => MediaRequest::Next,
        MediaControlCommand::Previous => MediaRequest::Previous,
    }
}

/// The `file://` URL of an absolute path, without the `\\?\` prefix of
/// extended-length Windows paths.
pub fn file_url(abs_path: &str) -> (r: String)
    ensures
        r@ == "file://"@ + if "\\\\?\\"@.is_prefix_of(abs_path@) {
            abs_path@.skip(4)
        } else {
            abs_path@
        },
{
    let v = str_chars(abs_path);
    let prefix = str_chars("\\\\?\\");
    proof {
        reveal_strlit("\\\\?\\");
    }
    let mut out = String::new();
    push_str(&mut out, "file://");
    if starts_with_chars(&v, &prefix) {
        let rest = sub_chars(&v, 4, v.len());
        let s = chars_to_string(&rest);
        push_str(&mut out, s.as_str());
        proof {
            assert(v@.subrange(4, v@.len() as int) =~= abs_path@.skip(4));
        }
    } else {
        push_str(&mut out, abs_path);
    }
    out
}

} // verus!

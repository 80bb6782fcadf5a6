//! Playback state and events, and the errors of the audio pipeline
//! (decoding and output).

use vstd::prelude::*;
use std::time::Duration;

verus! {

/// Errors that can occur during playback.
#[derive(Debug)]
pub enum PlayerError {
    FileOpen(String),
    Decode(String),
    Output(String),
    NoTrack,
}

/// Current playback state.
#[derive(Debug, Clone, Copy, PartialEq, Eq, Structural)]
pub enum PlaybackState {
    Stopped,
    Playing,
    Paused,
}

/// Events emitted by the player for UI updates.
#[derive(Debug)]
pub enum PlayerEvent {
    TrackChanged { path: String },
    StateChanged { state: PlaybackState },
    PositionChanged { position: Duration, duration: Duration },
    TrackEnded,
    Error { message: String },
}

/// Audio metadata extracted from a file.
#[derive(Debug, Clone)]
pub struct AudioMetadata {
    pub title: Option<String>,
    pub artist: Option<String>,
    pub album: Option<String>,
    pub album_artist: Option<String>,
    pub track_number: Option<u32>,
    pub genre: Option<String>,
    pub year: Option<u32>,
    pub codec: Option<String>,
    pub bitrate: Option<u32>,
    pub sample_rate: Option<u32>,
    pub channels: Option<u32>,
}

impl Default for AudioMetadata {
    fn default() -> (r: Self)
        ensures
            r.title is None && r.artist is None && r.album is None && r.album_artist is None
                && r.track_number is None && r.genre is None && r.year is None && r.codec is None
                && r.bitrate is None && r.sample_rate is None && r.channels is None,
    {
        AudioMetadata {
            title: None,
            artist: None,
            album: None,
            album_artist: None,
            track_number: None,
            genre: None,
            year: None,
            codec: None,
            bitrate: None,
            sample_rate: None,
            channels: None,
        }
    }
}

/// Errors that can occur during decoding.
#[derive(Debug)]
pub enum DecoderError {
    FileOpen(String),
    UnsupportedFormat,
    NoAudioTrack,
    DecoderCreation(String),
    Decode(String),
    Seek(String),
}

/// Errors that can occur with audio output.
#[derive(Debug)]
pub enum OutputError {
    NoDevice,
    StreamConfig(String),
    BuildStream(String),
    PlayStream(String),
}

/// Number of visualization bars to display.
pub const VIS_BARS: usize = 64;

/// Events from the operating system's media controls that the
/// application handles.
#[derive(Debug, Clone, Copy, PartialEq, Eq, Structural)]
pub enum MediaControlCommand {
    Play,
    Pause,
    Toggle,
    Stop,
    Next,
    Previous,
}

} // verus!

//! The views of the terminal interface and the visualizer styles.

use vstd::prelude::*;

verus! {

/// Visualization style for the visualizer view.
#[derive(Debug, Clone, Copy, PartialEq, Eq, Structural)]
pub enum VisualizerStyle {
    /// Vertical bars (default)
    Bars,
    /// Spectrum analyzer with mirrored bars
    Spectrum,
    /// Oscilloscope waveform
    Waveform,
    /// Horizontal level meter
    LevelMeter,
}

impl Default for VisualizerStyle {
    fn default() -> (r: Self)
        ensures
            r == VisualizerStyle::Bars,
    {
        VisualizerStyle::Bars
    }
}

/// The style after `s` in the cycle Bars, Spectrum, Waveform, Level Meter.
pub open spec fn next_style(s: VisualizerStyle) -> VisualizerStyle {
    match s {
        VisualizerStyle::Bars => VisualizerStyle::Spectrum,
        VisualizerStyle::Spectrum => VisualizerStyle::Waveform,
        VisualizerStyle::Waveform => VisualizerStyle::LevelMeter,
        VisualizerStyle::LevelMeter => VisualizerStyle::Bars,
    }
}

/// The display name of a style.
pub open spec fn style_name(s: VisualizerStyle) -> &'static str {
    match s {
        VisualizerStyle::Bars => "Bars",
        VisualizerStyle::Spectrum => "Spectrum",
        VisualizerStyle::Waveform => "Waveform",
        VisualizerStyle::LevelMeter => "Level Meter",
    }
}

impl VisualizerStyle {
    /// Returns the next visualization style.
    pub fn next(self) -> (r: Self)
        ensures
            r == next_style(self),
    {
        match self {
            VisualizerStyle::Bars => VisualizerStyle::Spectrum,
            VisualizerStyle::Spectrum => VisualizerStyle::Waveform,
            VisualizerStyle::Waveform => VisualizerStyle::LevelMeter,
            VisualizerStyle::LevelMeter => VisualizerStyle::Bars,
        }
    }

    /// Returns the name of the visualization style.
    pub fn name(&self) -> (r: &'static str)
        ensures
            r == style_name(*self),
    {
        match self {
            VisualizerStyle::Bars => "Bars",
            VisualizerStyle::Spectrum => "Spectrum",
            VisualizerStyle::Waveform => "Waveform",
            VisualizerStyle::LevelMeter => "Level Meter",
        }
    }
}

/// Current view mode of the application.
#[derive(Debug, Clone, Copy, PartialEq, Eq, Structural)]
pub enum ViewMode {
    /// Playlist view - main view showing current playlist.
    Playlist,
    /// Browser view - file/directory browser.
    Browser,
    /// Playlists view - browse saved playlists (M3U and directory playlists).
    Playlists,
    /// Help overlay - shows available commands.
    Help,
    /// Track info - shows metadata and details for current/selected track.
    TrackInfo,
    /// Large visualizer - full screen audio visualization.
    Visualizer,
    /// Settings view - configure app options.
    Settings,
}

impl Default for ViewMode {
    fn default() -> (r: Self)
        ensures
            r == ViewMode::Playlist,
    {
        ViewMode::Playlist
    }
}

/// The view after `v` in tab order: Playlist, Browser, Playlists, Track
/// Info, Visualizer, Settings, and round again; Help stays Help.
pub open spec fn next_tab_of(v: ViewMode) -> ViewMode {
    match v {
        ViewMode::Playlist => ViewMode::Browser,
        ViewMode::Browser => ViewMode::Playlists,
        ViewMode::Playlists => ViewMode::TrackInfo,
        ViewMode::TrackInfo => ViewMode::Visualizer,
        ViewMode::Visualizer => ViewMode::Settings,
        ViewMode::Settings => ViewMode::Playlist,
        ViewMode::Help => ViewMode::Help,
    }
}

/// The view before `v` in tab order; Help stays Help.
pub open spec fn prev_tab_of(v: ViewMode) -> ViewMode {
    match v {
        ViewMode::Playlist => ViewMode::Settings,
        ViewMode::Browser => ViewMode::Playlist,
        ViewMode::Playlists => ViewMode::Browser,
        ViewMode::TrackInfo => ViewMode::Playlists,
        ViewMode::Visualizer => ViewMode::TrackInfo,
        ViewMode::Settings => ViewMode::Visualizer,
        ViewMode::Help => ViewMode::Help,
    }
}

impl ViewMode {
    /// Returns the next view in tab order (the Help overlay stays).
    pub fn next_tab(self) -> (r: Self)
        ensures
            r == next_tab_of(self),
    {
        match self {
            ViewMode::Playlist => ViewMode::Browser,
            ViewMode::Browser => ViewMode::Playlists,
            ViewMode::Playlists => ViewMode::TrackInfo,
            ViewMode::TrackInfo => ViewMode::Visualizer,
            ViewMode::Visualizer => ViewMode::Settings,
            ViewMode::Settings => ViewMode::Playlist,
            ViewMode::Help => ViewMode::Help,
        }
    }

    /// Returns the previous view in tab order (the Help overlay stays).
    pub fn prev_tab(self) -> (r: Self)
        ensures
            r == prev_tab_of(self),
    {
        match self {
            ViewMode::Playlist => ViewMode::Settings,
            ViewMode::Browser => ViewMode::Playlist,
            ViewMode::Playlists => ViewMode::Browser,
            ViewMode::TrackInfo => ViewMode::Playlists,
            ViewMode::Visualizer => ViewMode::TrackInfo,
            ViewMode::Settings => ViewMode::Visualizer,
            ViewMode::Help => ViewMode::Help,
        }
    }
}

/// Tabbing forward then back (or back then forward) returns to the same
/// view.
pub proof fn law_tab_round_trip(v: ViewMode)
    ensures
        prev_tab_of(next_tab_of(v)) == v,
        next_tab_of(prev_tab_of(v)) == v,
{
}

/// Six forward tabs visit every tabbed view once and return to the start;
/// Help is never left by tabbing.
pub proof fn law_tab_cycle(v: ViewMode)
    ensures
        next_tab_of(next_tab_of(next_tab_of(next_tab_of(next_tab_of(next_tab_of(v)))))) == v,
        v != ViewMode::Help ==> next_tab_of(v) != ViewMode::Help && next_tab_of(v) != v,
        next_tab_of(ViewMode::Help) == ViewMode::Help,
{
}

/// Four presses of "next style" cycle through every style and return to
/// the start.
pub proof fn law_style_cycle(s: VisualizerStyle)
    ensures
        next_style(next_style(next_style(next_style(s)))) == s,
        next_style(s) != s,
        next_style(next_style(s)) != s,
        next_style(next_style(next_style(s))) != s,
{
}

/// The tab order: from the playlist, Tab goes to the browser, the saved
/// playlists, the track info, the visualizer, the settings, and back to
/// the playlist; Shift+Tab goes the other way.
pub proof fn law_tab_order()
    ensures
        next_tab_of(ViewMode::Playlist) == ViewMode::Browser,
        next_tab_of(ViewMode::Browser) == ViewMode::Playlists,
        next_tab_of(ViewMode::Playlists) == ViewMode::TrackInfo,
        next_tab_of(ViewMode::TrackInfo) == ViewMode::Visualizer,
        next_tab_of(ViewMode::Visualizer) == ViewMode::Settings,
        next_tab_of(ViewMode::Settings) == ViewMode::Playlist,
        forall|v: ViewMode| #[trigger] prev_tab_of(v) == if v == ViewMode::Help {
            ViewMode::Help
        } else {
            choose|u: ViewMode| u != ViewMode::Help && next_tab_of(u) == v
        },
{
    assert forall|v: ViewMode| #[trigger] prev_tab_of(v) == if v == ViewMode::Help {
        ViewMode::Help
    } else {
        choose|u: ViewMode| u != ViewMode::Help && next_tab_of(u) == v
    } by {
        if v != ViewMode::Help {
            let w = prev_tab_of(v);
            assert(w != ViewMode::Help && next_tab_of(w) == v);
            let u = choose|u: ViewMode| u != ViewMode::Help && next_tab_of(u) == v;
            assert(u == w);
        }
    }
}

} // verus!

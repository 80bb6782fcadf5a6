//! The contents of the track info view: what is known of the current or
//! selected track, as labelled lines.

use vstd::prelude::*;
use crate::paths::{opt_str_view, path_file_name, path_file_stem, spec_file_name, spec_file_stem};
use crate::player::AudioMetadata;
use crate::text::{decimal, push_decimal, push_str, string_push};

verus! {

/// The abstract value of an [`AudioMetadata`].
pub struct MetadataModel {
    pub title: Option<Seq<char>>,
    pub artist: Option<Seq<char>>,
    pub album: Option<Seq<char>>,
    pub album_artist: Option<Seq<char>>,
    pub track_number: Option<u32>,
    pub genre: Option<Seq<char>>,
    pub year: Option<u32>,
    pub codec: Option<Seq<char>>,
    pub bitrate: Option<u32>,
    pub sample_rate: Option<u32>,
    pub channels: Option<u32>,
}

impl View for AudioMetadata {
    type V = MetadataModel;

    open spec fn view(&self) -> MetadataModel {
        MetadataModel {
            title: opt_str_view(self.title),
            artist: opt_str_view(self.artist),
            album: opt_str_view(self.album),
            album_artist: opt_str_view(self.album_artist),
            track_number: self.track_number,
            genre: opt_str_view(self.genre),
            year: self.year,
            codec: opt_str_view(self.codec),
            bitrate: self.bitrate,
            sample_rate: self.sample_rate,
            channels: self.channels,
        }
    }
}

/// The view of an optional path.
pub open spec fn opt_path_view(o: Option<&str>) -> Option<Seq<char>> {
    match o {
        Some(s) => Some(s@),
        None => None,
    }
}

/// The view of optional metadata.
pub open spec fn meta_view(o: Option<&AudioMetadata>) -> Option<MetadataModel> {
    match o {
        Some(m) => Some(m@),
        None => None,
    }
}

/// The lines as label and value.
pub open spec fn lines_view(v: Seq<(String, String)>) -> Seq<(Seq<char>, Seq<char>)> {
    v.map_values(|p: (String, String)| (p.0@, p.1@))
}

/// A value, or `Unknown` when there is none.
pub open spec fn or_unknown(o: Option<Seq<char>>) -> Seq<char> {
    match o {
        Some(s) => s,
        None => "Unknown"@,
    }
}

/// A line showing `value` under `label`, only when there is a value.
pub open spec fn opt_line(label: Seq<char>, value: Option<Seq<char>>) -> Seq<(Seq<char>, Seq<char>)> {
    match value {
        Some(v) => seq![(label, v)],
        None => Seq::empty(),
    }
}

/// A line showing a number and its unit under `label`, only when there
/// is a number.
pub open spec fn opt_number_line(label: Seq<char>, value: Option<u32>, unit: Seq<char>) -> Seq<
    (Seq<char>, Seq<char>),
> {
    match value {
        Some(n) => seq![(label, decimal(n as nat) + unit)],
        None => Seq::empty(),
    }
}

/// How a channel count reads: `Mono`, `Stereo`, or the count.
pub open spec fn channels_text(n: u32) -> Seq<char> {
    if n == 1 {
        "Mono"@
    } else if n == 2 {
        "Stereo"@
    } else {
        decimal(n as nat) + " channels"@
    }
}

/// A number below 100 in at least two digits (`{:02}`).
pub open spec fn two_digits(n: nat) -> Seq<char> {
    if n < 10 {
        "0"@ + decimal(n)
    } else {
        decimal(n)
    }
}

/// A duration in seconds as minutes and two-digit seconds (`m:ss`).
pub open spec fn duration_text(secs: nat) -> Seq<char> {
    decimal(secs / 60) + ":"@ + two_digits(secs % 60)
}

/// The title: the tagged one, else the file stem of the path, else
/// `Unknown`.
pub open spec fn title_spec(path: Seq<char>, meta: Option<MetadataModel>) -> Seq<char> {
    match meta {
        Some(m) => match m.title {
            Some(t) => t,
            None => or_unknown(spec_file_stem(path)),
        },
        None => or_unknown(spec_file_stem(path)),
    }
}

/// Title, artist and album, always shown, then a blank line.
pub open spec fn identity_lines(path: Seq<char>, meta: Option<MetadataModel>) -> Seq<
    (Seq<char>, Seq<char>),
> {
    let (artist, album) = match meta {
        Some(m) => (or_unknown(m.artist), or_unknown(m.album)),
        None => ("Unknown"@, "Unknown"@),
    };
    seq![
        ("Title:  "@, title_spec(path, meta)),
        ("Artist: "@, artist),
        ("Album:  "@, album),
        (""@, ""@),
    ]
}

/// Album artist, track number, genre and year, each only when known.
pub open spec fn tag_lines(meta: Option<MetadataModel>) -> Seq<(Seq<char>, Seq<char>)> {
    match meta {
        Some(m) => opt_line("Album Artist: "@, m.album_artist) + opt_number_line(
            "Track #: "@,
            m.track_number,
            ""@,
        ) + opt_line("Genre:  "@, m.genre) + opt_number_line("Year:   "@, m.year, ""@),
        None => Seq::empty(),
    }
}

/// Codec, bitrate, sample rate and channels, each only when known.
pub open spec fn format_lines(meta: Option<MetadataModel>) -> Seq<(Seq<char>, Seq<char>)> {
    match meta {
        Some(m) => opt_line("Codec:       "@, m.codec) + opt_number_line(
            "Bitrate:     "@,
            m.bitrate,
            " kbps"@,
        ) + opt_number_line("Sample Rate: "@, m.sample_rate, " Hz"@) + match m.channels {
            Some(n) => seq![("Channels:    "@, channels_text(n))],
            None => Seq::empty(),
        },
        None => Seq::empty(),
    }
}

/// The duration, when it is known.
pub open spec fn duration_lines(duration_secs: Option<u64>) -> Seq<(Seq<char>, Seq<char>)> {
    match duration_secs {
        Some(d) => seq![("Duration:    "@, duration_text(d as nat))],
        None => Seq::empty(),
    }
}

/// The file name (or `Unknown`) and the full path.
pub open spec fn file_lines(path: Seq<char>) -> Seq<(Seq<char>, Seq<char>)> {
    seq![("File: "@, or_unknown(spec_file_name(path))), ("Path: "@, path)]
}

/// What the track info view shows with no track.
pub open spec fn no_track_lines() -> Seq<(Seq<char>, Seq<char>)> {
    seq![
        ("No track selected or playing"@, ""@),
        (""@, ""@),
        ("Select a track in the playlist and press 'i' to view its info,"@, ""@),
        ("or start playing a track first."@, ""@),
    ]
}

/// The lines of the track info view for the track at `path` (none when
/// no track is selected or playing), its metadata and its duration:
/// headings and blank lines carry an empty value.
pub open spec fn track_info_spec(
    path: Option<Seq<char>>,
    meta: Option<MetadataModel>,
    duration_secs: Option<u64>,
) -> Seq<(Seq<char>, Seq<char>)> {
    match path {
        None => no_track_lines(),
        Some(p) => identity_lines(p, meta) + tag_lines(meta) + seq![
            (""@, ""@),
            ("─── Audio Format ───"@, ""@),
        ] + format_lines(meta) + duration_lines(duration_secs) + seq![
            (""@, ""@),
            ("─── File ───"@, ""@),
        ] + file_lines(p),
    }
}

/// What the track info view shows: with no track, a hint that starts
/// "No track selected or playing"; with a track, the title first (the
/// tagged title, else the file stem, else `Unknown`), then the artist and
/// the album (`Unknown` when untagged), and last the file name (else
/// `Unknown`) and the full path.
pub proof fn law_track_info_lines(path: Seq<char>, meta: Option<MetadataModel>, duration_secs: Option<u64>)
    ensures
        track_info_spec(None, meta, duration_secs)[0] == ("No track selected or playing"@, ""@),
        ({
            let l = track_info_spec(Some(path), meta, duration_secs);
            let stem_or_unknown = match spec_file_stem(path) {
                Some(s) => s,
                None => "Unknown"@,
            };
            &&& l[0] == ("Title:  "@, match meta {
                Some(m) => match m.title {
                    Some(t) => t,
                    None => stem_or_unknown,
                },
                None => stem_or_unknown,
            })
            &&& l[1] == ("Artist: "@, match meta {
                Some(m) => match m.artist {
                    Some(a) => a,
                    None => "Unknown"@,
                },
                None => "Unknown"@,
            })
            &&& l[2] == ("Album:  "@, match meta {
                Some(m) => match m.album {
                    Some(a) => a,
                    None => "Unknown"@,
                },
                None => "Unknown"@,
            })
            &&& l[l.len() - 1] == ("Path: "@, path)
            &&& l[l.len() - 2] == ("File: "@, match spec_file_name(path) {
                Some(n) => n,
                None => "Unknown"@,
            })
        }),
{
    let l = track_info_spec(Some(path), meta, duration_secs);
    let head = identity_lines(path, meta);
    let tail = file_lines(path);
    let mid = tag_lines(meta) + seq![(""@, ""@), ("─── Audio Format ───"@, ""@)] + format_lines(meta)
        + duration_lines(duration_secs) + seq![(""@, ""@), ("─── File ───"@, ""@)];
    assert(l =~= head + mid + tail);
    assert(l[0] == head[0] && l[1] == head[1] && l[2] == head[2]);
    assert(l[l.len() - 1] == tail[1] && l[l.len() - 2] == tail[0]);
}

/// Channel counts read `Mono` for one, `Stereo` for two, and otherwise
/// as the count followed by ` channels`; durations read as minutes, a
/// colon and the seconds in two digits.
pub proof fn law_track_info_values(n: u32, secs: nat)
    ensures
        channels_text(n) == if n == 1 {
            "Mono"@
        } else if n == 2 {
            "Stereo"@
        } else {
            decimal(n as nat) + " channels"@
        },
        duration_text(secs) == decimal(secs / 60) + ":"@ + if secs % 60 < 10 {
            "0"@ + decimal(secs % 60)
        } else {
            decimal(secs % 60)
        },
{
}

/// A copy of `s`.
fn copy_str(s: &str) -> (r: String)
    ensures
        r@ == s@,
{
    let mut r = String::new();
    push_str(&mut r, s);
    r
}

/// Appends a line.
fn push_line(v: &mut Vec<(String, String)>, label: &str, value: String)
    ensures
        lines_view(final(v)@) == lines_view(old(v)@) + seq![(label@, value@)],
{
    let ghost before = v@;
    v.push((copy_str(label), value));
    proof {
        assert(lines_view(v@) =~= lines_view(before) + seq![(label@, value@)]);
    }
}

/// Appends a line with the text of `value`, when there is one.
fn push_opt_line(v: &mut Vec<(String, String)>, label: &str, value: &Option<String>)
    ensures
        lines_view(final(v)@) == lines_view(old(v)@) + opt_line(label@, opt_str_view(*value)),
{
    match value {
        Some(s) => push_line(v, label, copy_str(s.as_str())),
        None => {
            assert(lines_view(v@) + Seq::<(Seq<char>, Seq<char>)>::empty() =~= lines_view(v@));
        },
    }
}

/// The decimal form of `n` followed by `unit`.
fn number_with_unit(n: u32, unit: &str) -> (r: String)
    ensures
        r@ == decimal(n as nat) + unit@,
{
    let mut s = String::new();
    push_decimal(&mut s, n as u64);
    push_str(&mut s, unit);
    proof {
        assert(Seq::<char>::empty() + decimal(n as nat) =~= decimal(n as nat));
    }
    s
}

/// Appends a line with a number and its unit, when there is a number.
fn push_opt_number(v: &mut Vec<(String, String)>, label: &str, value: Option<u32>, unit: &str)
    ensures
        lines_view(final(v)@) == lines_view(old(v)@) + opt_number_line(label@, value, unit@),
{
    match value {
        Some(n) => push_line(v, label, number_with_unit(n, unit)),
        None => {
            assert(lines_view(v@) + Seq::<(Seq<char>, Seq<char>)>::empty() =~= lines_view(v@));
        },
    }
}

/// How a channel count reads.
fn channels_string(n: u32) -> (r: String)
    ensures
        r@ == channels_text(n),
{
    if n == 1 {
        copy_str("Mono")
    } else if n == 2 {
        copy_str("Stereo")
    } else {
        number_with_unit(n, " channels")
    }
}

/// A duration in seconds as `m:ss`.
pub fn format_duration(secs: u64) -> (r: String)
    ensures
        r@ == duration_text(secs as nat),
{
    let mut s = String::new();
    push_decimal(&mut s, secs / 60);
    string_push(&mut s, ':');
    let rest = secs % 60;
    if rest < 10 {
        string_push(&mut s, '0');
    }
    push_decimal(&mut s, rest);
    proof {
        reveal_strlit(":");
        reveal_strlit("0");
        assert(s@ =~= duration_text(secs as nat));
    }
    s
}

/// A value, or `Unknown`.
fn value_or_unknown(o: Option<String>) -> (r: String)
    ensures
        r@ == or_unknown(opt_str_view(o)),
{
    match o {
        Some(s) => s,
        None => copy_str("Unknown"),
    }
}

/// A tagged text field, or `Unknown`.
fn field_or_unknown(o: &Option<String>) -> (r: String)
    ensures
        r@ == or_unknown(opt_str_view(*o)),
{
    match o {
        Some(s) => copy_str(s.as_str()),
        None => copy_str("Unknown"),
    }
}

/// The empty string is the empty sequence.
proof fn lemma_empty_literal()
    ensures
        ""@ == Seq::<char>::empty(),
{
    reveal_strlit("");
    assert(""@ =~= Seq::<char>::empty());
}

/// Appends a blank line and a section heading.
fn push_heading(v: &mut Vec<(String, String)>, heading: &str)
    ensures
        lines_view(final(v)@) == lines_view(old(v)@) + seq![(""@, ""@), (heading@, ""@)],
{
    proof {
        lemma_empty_literal();
    }
    let ghost before = lines_view(v@);
    push_line(v, "", String::new());
    push_line(v, heading, String::new());
    proof {
        assert(lines_view(v@) =~= before + seq![(""@, ""@), (heading@, ""@)]);
    }
}

/// Appends the lines shown when there is no track.
fn push_no_track(v: &mut Vec<(String, String)>)
    ensures
        lines_view(final(v)@) == lines_view(old(v)@) + no_track_lines(),
{
    proof {
        lemma_empty_literal();
    }
    let ghost before = lines_view(v@);
    push_line(v, "No track selected or playing", String::new());
    push_line(v, "", String::new());
    push_line(v, "Select a track in the playlist and press 'i' to view its info,", String::new());
    push_line(v, "or start playing a track first.", String::new());
    proof {
        assert(lines_view(v@) =~= before + no_track_lines());
    }
}

/// Appends title, artist, album and a blank line.
fn push_identity(v: &mut Vec<(String, String)>, path: &str, meta: Option<&AudioMetadata>)
    ensures
        lines_view(final(v)@) == lines_view(old(v)@) + identity_lines(path@, meta_view(meta)),
{
    proof {
        lemma_empty_literal();
    }
    let ghost before = lines_view(v@);
    let title = match meta {
        Some(m) => match &m.title {
            Some(t) => copy_str(t.as_str()),
            None => value_or_unknown(path_file_stem(path)),
        },
        None => value_or_unknown(path_file_stem(path)),
    };
    push_line(v, "Title:  ", title);
    let (artist, album) = match meta {
        Some(m) => (field_or_unknown(&m.artist), field_or_unknown(&m.album)),
        None => (copy_str("Unknown"), copy_str("Unknown")),
    };
    push_line(v, "Artist: ", artist);
    push_line(v, "Album:  ", album);
    push_line(v, "", String::new());
    proof {
        assert(lines_view(v@) =~= before + identity_lines(path@, meta_view(meta)));
    }
}

/// Appends the tags that are known.
fn push_tags(v: &mut Vec<(String, String)>, meta: Option<&AudioMetadata>)
    ensures
        lines_view(final(v)@) == lines_view(old(v)@) + tag_lines(meta_view(meta)),
{
    let ghost before = lines_view(v@);
    match meta {
        Some(m) => {
            push_opt_line(v, "Album Artist: ", &m.album_artist);
            push_opt_number(v, "Track #: ", m.track_number, "");
            push_opt_line(v, "Genre:  ", &m.genre);
            push_opt_number(v, "Year:   ", m.year, "");
        },
        None => {},
    }
    proof {
        assert(lines_view(v@) =~= before + tag_lines(meta_view(meta)));
    }
}

/// Appends the audio format details that are known.
fn push_format(v: &mut Vec<(String, String)>, meta: Option<&AudioMetadata>)
    ensures
        lines_view(final(v)@) == lines_view(old(v)@) + format_lines(meta_view(meta)),
{
    let ghost before = lines_view(v@);
    match meta {
        Some(m) => {
            push_opt_line(v, "Codec:       ", &m.codec);
            push_opt_number(v, "Bitrate:     ", m.bitrate, " kbps");
            push_opt_number(v, "Sample Rate: ", m.sample_rate, " Hz");
            match m.channels {
                Some(n) => push_line(v, "Channels:    ", channels_string(n)),
                None => {},
            }
        },
        None => {},
    }
    proof {
        assert(lines_view(v@) =~= before + format_lines(meta_view(meta)));
    }
}

/// Appends the duration, when it is known.
fn push_duration(v: &mut Vec<(String, String)>, duration_secs: Option<u64>)
    ensures
        lines_view(final(v)@) == lines_view(old(v)@) + duration_lines(duration_secs),
{
    let ghost before = lines_view(v@);
    match duration_secs {
        Some(d) => push_line(v, "Duration:    ", format_duration(d)),
        None => {},
    }
    proof {
        assert(lines_view(v@) =~= before + duration_lines(duration_secs));
    }
}

/// Appends the file name and the path.
fn push_file(v: &mut Vec<(String, String)>, path: &str)
    ensures
        lines_view(final(v)@) == lines_view(old(v)@) + file_lines(path@),
{
    let ghost before = lines_view(v@);
    push_line(v, "File: ", value_or_unknown(path_file_name(path)));
    push_line(v, "Path: ", copy_str(path));
    proof {
        assert(lines_view(v@) =~= before + file_lines(path@));
    }
}

/// The lines of the track info view (see [`track_info_spec`]); the
/// title falls back to the file stem of the path and the file name is
/// what `Path::file_name` gives.
pub fn track_info_lines(
    path: Option<&str>,
    meta: Option<&AudioMetadata>,
    duration_secs: Option<u64>,
) -> (r: Vec<(String, String)>)
    ensures
        lines_view(r@) == track_info_spec(opt_path_view(path), meta_view(meta), duration_secs),
{
    let mut out: Vec<(String, String)> = Vec::new();
    proof {
        assert(lines_view(out@) =~= Seq::<(Seq<char>, Seq<char>)>::empty());
    }
    match path {
        None => {
            push_no_track(&mut out);
            proof {
                assert(Seq::<(Seq<char>, Seq<char>)>::empty() + no_track_lines() =~= no_track_lines());
            }
        },
        Some(p) => {
            push_identity(&mut out, p, meta);
            proof {
                assert(Seq::<(Seq<char>, Seq<char>)>::empty() + identity_lines(p@, meta_view(meta))
                    =~= identity_lines(p@, meta_view(meta)));
            }
            push_tags(&mut out, meta);
            push_heading(&mut out, "─── Audio Format ───");
            push_format(&mut out, meta);
            push_duration(&mut out, duration_secs);
            push_heading(&mut out, "─── File ───");
            push_file(&mut out, p);
        },
    }
    out
}

} // verus!

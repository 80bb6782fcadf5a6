//! The playlist file format (M3U) and the session record: what is
//! written to disk and what is read back from it.
//!
//! Reading and writing the files is left to the caller; this module turns
//! a playlist into file text and file text back into a playlist.

use vstd::prelude::*;
use crate::browser::{lex_less, lex_lt};
use crate::paths::{path_extension, path_file_stem, spec_extension, spec_file_stem};
use crate::playlist::{Playlist, RepeatMode, string_views};
use crate::text::{
    chars_to_string, decimal, eq_str, is_ws, lemma_find_char, lemma_parse_decimal,
    lemma_parse_signed_decimal, lemma_signed_decimal_plain,
    lemma_trim_plain, parse_i32_chars, parse_i32_spec, parse_unsigned, parse_usize_chars,
    push_decimal, push_signed_decimal, push_str, signed_decimal, split_lines, split_once,
    split_once_chars, str_chars, strip_cr, text_lines, trim, trim_chars,
};

verus! {

broadcast use vstd::string::group_string_axioms;

// ---------------------------------------------------------------------
// M3U playlists
// ---------------------------------------------------------------------

/// The first line of an M3U file.
pub open spec fn m3u_header() -> Seq<char> {
    seq!['#', 'E', 'X', 'T', 'M', '3', 'U']
}

/// One line per track, each ended by `\n`.
pub open spec fn m3u_body(tracks: Seq<Seq<char>>) -> Seq<char>
    decreases tracks.len(),
{
    if tracks.len() == 0 {
        Seq::empty()
    } else {
        tracks[0] + seq!['\n'] + m3u_body(tracks.drop_first())
    }
}

/// The text of the M3U file saved for `tracks`.
pub open spec fn m3u_text(tracks: Seq<Seq<char>>) -> Seq<char> {
    m3u_header() + seq!['\n'] + m3u_body(tracks)
}

/// Whether a line of an M3U file names a track: not blank once trimmed,
/// and not a `#` comment.
pub open spec fn m3u_keeps(line: Seq<char>) -> bool {
    trim(line).len() > 0 && trim(line)[0] != '#'
}

/// The tracks that the given lines of an M3U file name, trimmed, in order.
pub open spec fn m3u_entries(lines: Seq<Seq<char>>) -> Seq<Seq<char>>
    decreases lines.len(),
{
    if lines.len() == 0 {
        Seq::empty()
    } else {
        (if m3u_keeps(lines[0]) {
            seq![trim(lines[0])]
        } else {
            Seq::empty()
        }) + m3u_entries(lines.drop_first())
    }
}

/// The tracks an M3U text lists.
pub open spec fn m3u_tracks(text: Seq<char>) -> Seq<Seq<char>> {
    m3u_entries(text_lines(text))
}

/// A track path that an M3U file keeps as it is: not empty, no
/// whitespace at either end, no line break, and not starting with `#`.
pub open spec fn m3u_safe(t: Seq<char>) -> bool {
    &&& t.len() > 0
    &&& !is_ws(t[0])
    &&& !is_ws(t.last())
    &&& t[0] != '#'
    &&& forall|i: int| 0 <= i < t.len() ==> #[trigger] t[i] != '\n'
}

proof fn lemma_m3u_body_push(ts: Seq<Seq<char>>, t: Seq<char>)
    ensures
        m3u_body(ts.push(t)) == m3u_body(ts) + t + seq!['\n'],
    decreases ts.len(),
{
    if ts.len() == 0 {
        assert(ts.push(t).drop_first() =~= Seq::<Seq<char>>::empty());
        assert(ts.push(t)[0] == t);
        assert(m3u_body(Seq::<Seq<char>>::empty()) == Seq::<char>::empty());
        assert(m3u_body(ts) == Seq::<char>::empty());
        assert(m3u_body(ts.push(t)) =~= m3u_body(ts) + t + seq!['\n']);
    } else {
        assert(ts.push(t).drop_first() =~= ts.drop_first().push(t));
        lemma_m3u_body_push(ts.drop_first(), t);
        assert(m3u_body(ts.push(t)) =~= m3u_body(ts) + t + seq!['\n']);
    }
}

proof fn lemma_m3u_entries_push(lines: Seq<Seq<char>>, l: Seq<char>)
    ensures
        m3u_entries(lines.push(l)) == m3u_entries(lines) + (if m3u_keeps(l) {
            seq![trim(l)]
        } else {
            Seq::empty()
        }),
    decreases lines.len(),
{
    if lines.len() == 0 {
        assert(lines.push(l).drop_first() =~= Seq::<Seq<char>>::empty());
        assert(lines.push(l)[0] == l);
        assert(m3u_entries(Seq::<Seq<char>>::empty()) == Seq::<Seq<char>>::empty());
        assert(m3u_entries(lines) == Seq::<Seq<char>>::empty());
        assert(m3u_entries(lines.push(l)) =~= m3u_entries(lines) + (if m3u_keeps(l) {
            seq![trim(l)]
        } else {
            Seq::empty()
        }));
    } else {
        assert(lines.push(l).drop_first() =~= lines.drop_first().push(l));
        lemma_m3u_entries_push(lines.drop_first(), l);
        assert(m3u_entries(lines.push(l)) =~= m3u_entries(lines) + (if m3u_keeps(l) {
            seq![trim(l)]
        } else {
            Seq::empty()
        }));
    }
}

/// A line with no `\n` in it, followed by `\n`, is the first line.
pub proof fn lemma_text_lines_cons(a: Seq<char>, b: Seq<char>)
    requires
        forall|i: int| 0 <= i < a.len() ==> #[trigger] a[i] != '\n',
    ensures
        text_lines(a + seq!['\n'] + b) == seq![strip_cr(a)] + text_lines(b),
{
    let s = a + seq!['\n'] + b;
    assert forall|j: int| 0 <= j < a.len() implies #[trigger] s[j] != '\n' by {
        assert(s[j] == a[j]);
    }
    assert(s[a.len() as int] == '\n');
    lemma_find_char(s, '\n', a.len() as int);
    assert(s.take(a.len() as int) =~= a);
    assert(s.skip(a.len() + 1 as int) =~= b);
}

proof fn lemma_m3u_body_lines(ts: Seq<Seq<char>>)
    requires
        forall|i: int| 0 <= i < ts.len() ==> m3u_safe(#[trigger] ts[i]),
    ensures
        text_lines(m3u_body(ts)) == ts,
    decreases ts.len(),
{
    if ts.len() == 0 {
        assert(text_lines(Seq::<char>::empty()) =~= Seq::<Seq<char>>::empty());
    } else {
        let t = ts[0];
        assert(m3u_safe(t));
        assert forall|i: int| 0 <= i < ts.drop_first().len() implies m3u_safe(
            #[trigger] ts.drop_first()[i],
        ) by {
            assert(ts.drop_first()[i] == ts[i + 1]);
        }
        lemma_m3u_body_lines(ts.drop_first());
        lemma_text_lines_cons(t, m3u_body(ts.drop_first()));
        assert(t.last() != '\r');
        assert(strip_cr(t) == t);
        assert(text_lines(m3u_body(ts)) =~= ts);
    }
}

proof fn lemma_m3u_entries_safe(ts: Seq<Seq<char>>)
    requires
        forall|i: int| 0 <= i < ts.len() ==> m3u_safe(#[trigger] ts[i]),
    ensures
        m3u_entries(ts) == ts,
    decreases ts.len(),
{
    if ts.len() == 0 {
    } else {
        let t = ts[0];
        assert(m3u_safe(t));
        lemma_trim_plain(t);
        assert forall|i: int| 0 <= i < ts.drop_first().len() implies m3u_safe(
            #[trigger] ts.drop_first()[i],
        ) by {
            assert(ts.drop_first()[i] == ts[i + 1]);
        }
        lemma_m3u_entries_safe(ts.drop_first());
        assert(m3u_entries(ts) =~= ts);
    }
}

/// Saving a playlist and loading the file back gives the same tracks, in
/// the same order, for every track path that an M3U line can hold as it
/// is (see [`m3u_safe`]).
pub proof fn law_m3u_round_trip(tracks: Seq<Seq<char>>)
    requires
        forall|i: int| 0 <= i < tracks.len() ==> m3u_safe(#[trigger] tracks[i]),
    ensures
        m3u_tracks(m3u_text(tracks)) == tracks,
{
    let h = m3u_header();
    assert forall|i: int| 0 <= i < h.len() implies #[trigger] h[i] != '\n' by {}
    lemma_text_lines_cons(h, m3u_body(tracks));
    lemma_m3u_body_lines(tracks);
    assert(strip_cr(h) == h);
    let lines = seq![h] + tracks;
    assert(text_lines(m3u_text(tracks)) =~= lines);
    lemma_trim_plain(h);
    assert(!m3u_keeps(h));
    assert(lines.drop_first() =~= tracks);
    lemma_m3u_entries_safe(tracks);
}

impl Playlist {
    /// The text of the playlist's M3U file: the `#EXTM3U` header, then
    /// one track path per line.
    pub fn to_m3u(&self) -> (r: String)
        requires
            self.wf(),
        ensures
            r@ == m3u_text(self@.tracks),
    {
        let tracks = self.tracks();
        let mut out = String::new();
        push_str(&mut out, "#EXTM3U\n");
        proof {
            reveal_strlit("#EXTM3U\n");
            assert(out@ =~= m3u_header() + seq!['\n']);
        }
        let n = tracks.len();
        let mut i: usize = 0;
        while i < n
            invariant
                i <= n,
                n == tracks@.len(),
                string_views(tracks@) == self@.tracks,
                out@ == m3u_header() + seq!['\n'] + m3u_body(self@.tracks.take(i as int)),
            decreases n - i,
        {
            push_str(&mut out, tracks[i].as_str());
            push_str(&mut out, "\n");
            proof {
                reveal_strlit("\n");
                let ts = self@.tracks;
                assert(ts[i as int] == tracks@[i as int]@);
                assert(ts.take(i + 1) =~= ts.take(i as int).push(ts[i as int]));
                lemma_m3u_body_push(ts.take(i as int), ts[i as int]);
                assert(out@ =~= m3u_header() + seq!['\n'] + m3u_body(ts.take(i + 1)));
            }
            i = i + 1;
        }
        proof {
            assert(self@.tracks.take(n as int) =~= self@.tracks);
        }
        out
    }

    /// Builds a playlist from the text of an M3U file: each line is
    /// trimmed, and blank lines and `#` lines are skipped.
    pub fn from_m3u(text: &str) -> (r: Playlist)
        ensures
            r.wf(),
            r@.tracks == m3u_tracks(text@),
            r@.current is None,
            !r@.shuffle,
            r@.repeat == RepeatMode::Off,
    {
        let v = str_chars(text);
        let lines = split_lines(&v);
        let ghost ls = text_lines(v@);
        let mut paths: Vec<String> = Vec::new();
        let n = lines.len();
        let mut i: usize = 0;
        while i < n
            invariant
                i <= n,
                n == ls.len(),
                lines@.len() == ls.len(),
                forall|k: int| 0 <= k < lines@.len() ==> #[trigger] lines@[k]@ == ls[k],
                string_views(paths@) == m3u_entries(ls.take(i as int)),
            decreases n - i,
        {
            let t = trim_chars(&lines[i]);
            let keep = t.len() > 0 && t[0] != '#';
            proof {
                assert(ls.take(i + 1) =~= ls.take(i as int).push(ls[i as int]));
                lemma_m3u_entries_push(ls.take(i as int), ls[i as int]);
            }
            if keep {
                let p = chars_to_string(&t);
                paths.push(p);
                proof {
                    assert(string_views(paths@) =~= m3u_entries(ls.take(i + 1)));
                }
            } else {
                proof {
                    assert(m3u_entries(ls.take(i + 1)) =~= m3u_entries(ls.take(i as int)));
                }
            }
            i = i + 1;
        }
        proof {
            assert(ls.take(n as int) =~= ls);
        }
        let mut r = Playlist::new();
        r.add_many(paths);
        proof {
            assert(r@.tracks =~= m3u_tracks(text@));
        }
        r
    }
}

// ---------------------------------------------------------------------
// The session record
// ---------------------------------------------------------------------

/// What is kept across restarts: the last playlist, the track within it,
/// shuffle, repeat and the volume.
#[derive(Debug, Clone)]
pub struct SessionState {
    /// Name of the saved playlist that was playing.
    pub playlist_name: String,
    /// Index of the track that was playing, if any.
    pub track_index: Option<usize>,
    /// Whether shuffle was on.
    pub shuffle: bool,
    /// The repeat mode.
    pub repeat: RepeatMode,
    /// The volume in percent of full scale (100 is full volume).
    pub volume_percent: i32,
}

/// The abstract content of a [`SessionState`].
pub struct SessionView {
    pub playlist_name: Seq<char>,
    pub track_index: Option<usize>,
    pub shuffle: bool,
    pub repeat: RepeatMode,
    pub volume_percent: i32,
}

impl View for SessionState {
    type V = SessionView;

    open spec fn view(&self) -> SessionView {
        SessionView {
            playlist_name: self.playlist_name@,
            track_index: self.track_index,
            shuffle: self.shuffle,
            repeat: self.repeat,
            volume_percent: self.volume_percent,
        }
    }
}

/// The word the session file uses for a repeat mode.
pub open spec fn repeat_word(r: RepeatMode) -> Seq<char> {
    match r {
        RepeatMode::Off => "off"@,
        RepeatMode::One => "one"@,
        RepeatMode::All => "all"@,
    }
}

/// The text of the session file: one `key=value` line each for the
/// playlist, the track index (empty when there is none), shuffle (`1` or
/// `0`), repeat and the volume in percent.
pub open spec fn session_text(s: SessionView) -> Seq<char> {
    "playlist="@ + s.playlist_name + seq!['\n'] + "track="@ + (match s.track_index {
        Some(i) => decimal(i as nat),
        None => Seq::empty(),
    }) + seq!['\n'] + "shuffle="@ + (if s.shuffle {
        "1"@
    } else {
        "0"@
    }) + seq!['\n'] + "repeat="@ + repeat_word(s.repeat) + seq!['\n'] + "volume="@
        + signed_decimal(s.volume_percent as int) + seq!['\n']
}

/// The session file names repeat modes `off`, `one` and `all`, and reads
/// `one` or `1` as one, `all` or `2` as all, and anything else as off;
/// each mode reads back as itself.
pub proof fn law_session_repeat_words(r: RepeatMode, v: Seq<char>)
    ensures
        repeat_word(RepeatMode::Off) == "off"@,
        repeat_word(RepeatMode::One) == "one"@,
        repeat_word(RepeatMode::All) == "all"@,
        session_repeat(v) == if v == "one"@ || v == "1"@ {
            RepeatMode::One
        } else if v == "all"@ || v == "2"@ {
            RepeatMode::All
        } else {
            RepeatMode::Off
        },
        session_repeat(repeat_word(r)) == r,
{
    reveal_strlit("off");
    reveal_strlit("one");
    reveal_strlit("all");
    reveal_strlit("1");
    reveal_strlit("2");
    assert("off"@.len() == 3 && "one"@.len() == 3 && "all"@.len() == 3);
    assert("1"@.len() == 1 && "2"@.len() == 1);
    assert("off"@[1] == 'f' && "one"@[1] == 'n' && "all"@[1] == 'l');
    assert("off"@ != "one"@ && "off"@ != "all"@ && "one"@ != "all"@);
    assert("off"@ != "1"@ && "off"@ != "2"@ && "all"@ != "1"@);
}

/// The session read from an empty file.
pub open spec fn session_default() -> SessionView {
    SessionView {
        playlist_name: Seq::empty(),
        track_index: None,
        shuffle: false,
        repeat: RepeatMode::Off,
        volume_percent: 100,
    }
}

/// How a session file names a repeat mode: `one` or `1`, `all` or `2`,
/// anything else is off.
pub open spec fn session_repeat(v: Seq<char>) -> RepeatMode {
    if v == "one"@ || v == "1"@ {
        RepeatMode::One
    } else if v == "all"@ || v == "2"@ {
        RepeatMode::All
    } else {
        RepeatMode::Off
    }
}

/// What one line of the session file sets: the key and value are split at
/// the first `=` and trimmed; unknown keys and lines without `=` change
/// nothing.
pub open spec fn session_line(acc: SessionView, line: Seq<char>) -> SessionView {
    match split_once(line, '=').1 {
        None => acc,
        Some(value) => {
            let k = trim(split_once(line, '=').0);
            let v = trim(value);
            if k == "playlist"@ {
                SessionView { playlist_name: v, ..acc }
            } else if k == "track"@ {
                SessionView {
                    track_index: match parse_unsigned(v, usize::MAX as nat) {
                        Some(n) => Some(n as usize),
                        None => None,
                    },
                    ..acc
                }
            } else if k == "shuffle"@ {
                SessionView { shuffle: v == "1"@, ..acc }
            } else if k == "repeat"@ {
                SessionView { repeat: session_repeat(v), ..acc }
            } else if k == "volume"@ {
                SessionView {
                    volume_percent: match parse_i32_spec(v) {
                        Some(x) => x as i32,
                        None => 100,
                    },
                    ..acc
                }
            } else {
                acc
            }
        },
    }
}

/// The session after reading the given lines in order: a later line for
/// a key overrides an earlier one.
pub open spec fn session_lines(lines: Seq<Seq<char>>) -> SessionView
    decreases lines.len(),
{
    if lines.len() == 0 {
        session_default()
    } else {
        session_line(session_lines(lines.drop_last()), lines.last())
    }
}

/// The session a file's text holds: none when it names no playlist.
pub open spec fn parse_session_text(text: Seq<char>) -> Option<SessionView> {
    let s = session_lines(text_lines(text));
    if s.playlist_name.len() == 0 {
        None
    } else {
        Some(s)
    }
}

impl Playlist {
    /// The text of the session file for `state`.
    pub fn session_text(state: &SessionState) -> (r: String)
        ensures
            r@ == session_text(state@),
    {
        let mut out = String::new();
        push_str(&mut out, "playlist=");
        push_str(&mut out, state.playlist_name.as_str());
        push_str(&mut out, "\ntrack=");
        match state.track_index {
            Some(i) => push_decimal(&mut out, i as u64),
            None => {},
        }
        push_str(&mut out, "\nshuffle=");
        if state.shuffle {
            push_str(&mut out, "1");
        } else {
            push_str(&mut out, "0");
        }
        push_str(&mut out, "\nrepeat=");
        match state.repeat {
            RepeatMode::Off => push_str(&mut out, "off"),
            RepeatMode::One => push_str(&mut out, "one"),
            RepeatMode::All => push_str(&mut out, "all"),
        }
        push_str(&mut out, "\nvolume=");
        push_signed_decimal(&mut out, state.volume_percent);
        push_str(&mut out, "\n");
        proof {
            reveal_strlit("\ntrack=");
            reveal_strlit("\nshuffle=");
            reveal_strlit("\nrepeat=");
            reveal_strlit("\nvolume=");
            reveal_strlit("\n");
            reveal_strlit("track=");
            reveal_strlit("shuffle=");
            reveal_strlit("repeat=");
            reveal_strlit("volume=");
            assert("\ntrack="@ =~= seq!['\n'] + "track="@);
            assert("\nshuffle="@ =~= seq!['\n'] + "shuffle="@);
            assert("\nrepeat="@ =~= seq!['\n'] + "repeat="@);
            assert("\nvolume="@ =~= seq!['\n'] + "volume="@);
            assert(out@ =~= session_text(state@));
        }
        out
    }

    /// Reads the session back from the text of the session file; `None`
    /// when it names no playlist.
    pub fn parse_session(text: &str) -> (r: Option<SessionState>)
        ensures
            match r {
                Some(st) => parse_session_text(text@) == Some(st@),
                None => parse_session_text(text@) is None,
            },
    {
        let v = str_chars(text);
        let lines = split_lines(&v);
        let ghost ls = text_lines(v@);
        let mut name: Vec<char> = Vec::new();
        let mut track_index: Option<usize> = None;
        let mut shuffle = false;
        let mut repeat = RepeatMode::Off;
        let mut volume: i32 = 100;
        let n = lines.len();
        let mut i: usize = 0;
        proof {
            assert(ls.take(0) =~= Seq::<Seq<char>>::empty());
            assert(name@ =~= Seq::<char>::empty());
        }
        while i < n
            invariant
                i <= n,
                n == ls.len(),
                lines@.len() == ls.len(),
                forall|k: int| 0 <= k < lines@.len() ==> #[trigger] lines@[k]@ == ls[k],
                session_lines(ls.take(i as int)) == (SessionView {
                    playlist_name: name@,
                    track_index,
                    shuffle,
                    repeat,
                    volume_percent: volume,
                }),
            decreases n - i,
        {
            proof {
                assert(ls.take(i + 1).drop_last() =~= ls.take(i as int));
                assert(ls.take(i + 1).last() == ls[i as int]);
            }
            let (key, value) = split_once_chars(&lines[i], '=');
            match value {
                Some(val) => {
                    let k = trim_chars(&key);
                    let t = trim_chars(&val);
                    if eq_str(&k, "playlist") {
                        name = t;
                    } else if eq_str(&k, "track") {
                        track_index = parse_usize_chars(&t);
                    } else if eq_str(&k, "shuffle") {
                        shuffle = eq_str(&t, "1");
                    } else if eq_str(&k, "repeat") {
                        repeat = if eq_str(&t, "one") || eq_str(&t, "1") {
                            RepeatMode::One
                        } else if eq_str(&t, "all") || eq_str(&t, "2") {
                            RepeatMode::All
                        } else {
                            RepeatMode::Off
                        };
                    } else if eq_str(&k, "volume") {
                        volume = match parse_i32_chars(&t) {
                            Some(x) => x,
                            None => 100,
                        };
                    }
                },
                None => {},
            }
            i = i + 1;
        }
        proof {
            assert(ls.take(n as int) =~= ls);
        }
        if name.len() == 0 {
            None
        } else {
            let playlist_name = chars_to_string(&name);
            Some(SessionState { playlist_name, track_index, shuffle, repeat, volume_percent: volume })
        }
    }
}

/// A playlist name that the session file keeps as it is: not empty, no
/// whitespace at either end, no line break.
pub open spec fn session_name_safe(n: Seq<char>) -> bool {
    &&& n.len() > 0
    &&& !is_ws(n[0])
    &&& !is_ws(n.last())
    &&& forall|i: int| 0 <= i < n.len() ==> #[trigger] n[i] != '\n'
}

/// `key=value`, with no `=` in the key, splits back into the two and
/// trims to them when neither has whitespace at its ends.
proof fn lemma_key_value(k: Seq<char>, v: Seq<char>)
    requires
        k.len() > 0,
        !is_ws(k[0]),
        !is_ws(k.last()),
        forall|i: int| 0 <= i < k.len() ==> #[trigger] k[i] != '=',
        v.len() > 0 ==> !is_ws(v[0]) && !is_ws(v.last()),
    ensures
        split_once(k + seq!['='] + v, '=') == (k, Some(v)),
        trim(k) == k,
        trim(v) == v,
{
    let l = k + seq!['='] + v;
    assert forall|j: int| 0 <= j < k.len() implies #[trigger] l[j] != '=' by {
        assert(l[j] == k[j]);
    }
    assert(l[k.len() as int] == '=');
    lemma_find_char(l, '=', k.len() as int);
    assert(l.take(k.len() as int) =~= k);
    assert(l.skip(k.len() + 1 as int) =~= v);
    lemma_trim_plain(k);
    lemma_trim_plain(v);
}

/// A `key=value` line ending in a character other than `\r`, with no
/// line break, keeps its form as a line of the file.
proof fn lemma_line_plain(k: Seq<char>, v: Seq<char>)
    requires
        forall|i: int| 0 <= i < k.len() ==> #[trigger] k[i] != '\n',
        forall|i: int| 0 <= i < v.len() ==> #[trigger] v[i] != '\n',
        v.len() > 0 ==> v.last() != '\r',
    ensures
        forall|i: int| 0 <= i < (k + seq!['='] + v).len() ==> #[trigger] (k + seq!['='] + v)[i]
            != '\n',
        strip_cr(k + seq!['='] + v) == k + seq!['='] + v,
{
    let l = k + seq!['='] + v;
    assert forall|i: int| 0 <= i < l.len() implies #[trigger] l[i] != '\n' by {
        if i < k.len() {
            assert(l[i] == k[i]);
        } else if i > k.len() {
            assert(l[i] == v[i - k.len() - 1]);
        }
    }
    assert(l.last() != '\r');
}

/// The value written for the track index.
spec fn track_value(t: Option<usize>) -> Seq<char> {
    match t {
        Some(i) => decimal(i as nat),
        None => Seq::empty(),
    }
}

/// The value written for shuffle.
spec fn shuffle_value(b: bool) -> Seq<char> {
    if b {
        "1"@
    } else {
        "0"@
    }
}

/// The lines of the session file for `s`, without their line breaks.
spec fn session_file_lines(s: SessionView) -> Seq<Seq<char>> {
    seq![
        "playlist"@ + seq!['='] + s.playlist_name,
        "track"@ + seq!['='] + track_value(s.track_index),
        "shuffle"@ + seq!['='] + shuffle_value(s.shuffle),
        "repeat"@ + seq!['='] + repeat_word(s.repeat),
        "volume"@ + seq!['='] + signed_decimal(s.volume_percent as int),
    ]
}

/// The written values have no whitespace at their ends and no line break.
proof fn lemma_session_values_plain(s: SessionView)
    ensures
        forall|i: int| 0 <= i < track_value(s.track_index).len() ==> #[trigger] track_value(s.track_index)[i] != '\n' && !is_ws(track_value(s.track_index)[i]),
        forall|i: int| 0 <= i < shuffle_value(s.shuffle).len() ==> #[trigger] shuffle_value(s.shuffle)[i] != '\n' && !is_ws(shuffle_value(s.shuffle)[i]),
        forall|i: int| 0 <= i < repeat_word(s.repeat).len() ==> #[trigger] repeat_word(s.repeat)[i] != '\n' && !is_ws(repeat_word(s.repeat)[i]),
        forall|i: int| 0 <= i < signed_decimal(s.volume_percent as int).len() ==> #[trigger] signed_decimal(s.volume_percent as int)[i] != '\n' && !is_ws(signed_decimal(s.volume_percent as int)[i]),
        shuffle_value(s.shuffle).len() > 0,
        repeat_word(s.repeat).len() > 0,
        signed_decimal(s.volume_percent as int).len() > 0,
{
    reveal_strlit("1");
    reveal_strlit("0");
    reveal_strlit("one");
    reveal_strlit("all");
    reveal_strlit("off");
    lemma_signed_decimal_plain(s.volume_percent as int);
    match s.track_index {
        Some(i) => {
            lemma_signed_decimal_plain(i as int);
            assert(signed_decimal(i as int) == decimal(i as nat));
        },
        None => {},
    }
}

/// The keys of the session file: letters only.
proof fn lemma_session_keys()
    ensures
        "playlist="@ == "playlist"@ + seq!['='],
        "track="@ == "track"@ + seq!['='],
        "shuffle="@ == "shuffle"@ + seq!['='],
        "repeat="@ == "repeat"@ + seq!['='],
        "volume="@ == "volume"@ + seq!['='],
        session_key_plain("playlist"@),
        session_key_plain("track"@),
        session_key_plain("shuffle"@),
        session_key_plain("repeat"@),
        session_key_plain("volume"@),
{
    reveal_strlit("playlist=");
    reveal_strlit("track=");
    reveal_strlit("shuffle=");
    reveal_strlit("repeat=");
    reveal_strlit("volume=");
    reveal_strlit("playlist");
    reveal_strlit("track");
    reveal_strlit("shuffle");
    reveal_strlit("repeat");
    reveal_strlit("volume");
    assert("playlist="@ =~= "playlist"@ + seq!['=']);
    assert("track="@ =~= "track"@ + seq!['=']);
    assert("shuffle="@ =~= "shuffle"@ + seq!['=']);
    assert("repeat="@ =~= "repeat"@ + seq!['=']);
    assert("volume="@ =~= "volume"@ + seq!['=']);
}

/// A key of the session file: not empty, and no `=`, whitespace or line
/// break in it.
spec fn session_key_plain(k: Seq<char>) -> bool {
    &&& k.len() > 0
    &&& forall|i: int| 0 <= i < k.len() ==> #[trigger] k[i] != '=' && k[i] != '\n' && !is_ws(k[i])
}

/// The session text splits into its five lines.
#[verifier::rlimit(40)]
proof fn lemma_session_text_lines(s: SessionView)
    requires
        session_name_safe(s.playlist_name),
    ensures
        text_lines(session_text(s)) == session_file_lines(s),
{
    lemma_session_keys();
    lemma_session_values_plain(s);
    let ls = session_file_lines(s);
    lemma_line_plain("playlist"@, s.playlist_name);
    lemma_line_plain("track"@, track_value(s.track_index));
    lemma_line_plain("shuffle"@, shuffle_value(s.shuffle));
    lemma_line_plain("repeat"@, repeat_word(s.repeat));
    lemma_line_plain("volume"@, signed_decimal(s.volume_percent as int));
    let nl = seq!['\n'];
    let e = Seq::<char>::empty();
    let t4 = ls[4] + nl + e;
    let t3 = ls[3] + nl + t4;
    let t2 = ls[2] + nl + t3;
    let t1 = ls[1] + nl + t2;
    let t0 = ls[0] + nl + t1;
    assert(session_text(s) =~= t0);
    lemma_text_lines_cons(ls[4], e);
    lemma_text_lines_cons(ls[3], t4);
    lemma_text_lines_cons(ls[2], t3);
    lemma_text_lines_cons(ls[1], t2);
    lemma_text_lines_cons(ls[0], t1);
    assert(text_lines(e) =~= Seq::<Seq<char>>::empty());
    assert(text_lines(session_text(s)) =~= ls);
}

/// Reading the five lines back sets each field to what was written.
proof fn lemma_session_file_lines_read(s: SessionView)
    requires
        session_name_safe(s.playlist_name),
    ensures
        session_lines(session_file_lines(s)) == s,
{
    lemma_session_keys();
    reveal_strlit("playlist");
    reveal_strlit("track");
    reveal_strlit("shuffle");
    reveal_strlit("repeat");
    reveal_strlit("volume");
    reveal_strlit("1");
    reveal_strlit("0");
    reveal_strlit("2");
    reveal_strlit("one");
    reveal_strlit("all");
    reveal_strlit("off");
    lemma_session_values_plain(s);
    let ls = session_file_lines(s);
    lemma_key_value("playlist"@, s.playlist_name);
    lemma_key_value("track"@, track_value(s.track_index));
    lemma_key_value("shuffle"@, shuffle_value(s.shuffle));
    lemma_key_value("repeat"@, repeat_word(s.repeat));
    lemma_key_value("volume"@, signed_decimal(s.volume_percent as int));
    match s.track_index {
        Some(i) => {
            lemma_parse_decimal(i as nat, usize::MAX as nat);
        },
        None => {},
    }
    lemma_parse_signed_decimal(s.volume_percent);
    let s1 = seq![ls[0]];
    let s2 = seq![ls[0], ls[1]];
    let s3 = seq![ls[0], ls[1], ls[2]];
    let s4 = seq![ls[0], ls[1], ls[2], ls[3]];
    assert(s1.drop_last() =~= Seq::<Seq<char>>::empty());
    assert(s2.drop_last() =~= s1);
    assert(s3.drop_last() =~= s2);
    assert(s4.drop_last() =~= s3);
    assert(ls.drop_last() =~= s4);
    assert(s1.last() == ls[0]);
    assert(s2.last() == ls[1]);
    assert(s3.last() == ls[2]);
    assert(s4.last() == ls[3]);
    assert(ls.last() == ls[4]);
    assert(session_lines(Seq::<Seq<char>>::empty()) == session_default());
    let a1 = session_line(session_default(), ls[0]);
    assert(a1.playlist_name == s.playlist_name);
    let a2 = session_line(a1, ls[1]);
    assert(a2.track_index == s.track_index);
    let a3 = session_line(a2, ls[2]);
    assert(a3.shuffle == s.shuffle);
    let a4 = session_line(a3, ls[3]);
    assert(a4.repeat == s.repeat);
    let a5 = session_line(a4, ls[4]);
    assert(a5.volume_percent == s.volume_percent);
    assert(session_lines(s1) == a1);
    assert(session_lines(s2) == a2);
    assert(session_lines(s3) == a3);
    assert(session_lines(s4) == a4);
    assert(session_lines(ls) == a5);
}

/// Writing the session and reading the file back gives the same session,
/// whenever the playlist name is one the file keeps as it is (see
/// [`session_name_safe`]).
pub proof fn law_session_round_trip(s: SessionView)
    requires
        session_name_safe(s.playlist_name),
    ensures
        parse_session_text(session_text(s)) == Some(s),
{
    lemma_session_text_lines(s);
    lemma_session_file_lines_read(s);
}

// ---------------------------------------------------------------------
// Names of saved playlists
// ---------------------------------------------------------------------

/// The name a file in the playlist directory is listed under: its stem,
/// when its extension is `ext` and the stem is not `_last`.
pub open spec fn listed_name(path: Seq<char>, ext: Seq<char>) -> Option<Seq<char>> {
    if spec_extension(path) == Some(ext) {
        match spec_file_stem(path) {
            Some(stem) => if stem != "_last"@ {
                Some(stem)
            } else {
                None
            },
            None => None,
        }
    } else {
        None
    }
}

/// The names the files `paths` are listed under, in their order.
pub open spec fn listed_names(paths: Seq<Seq<char>>, ext: Seq<char>) -> Seq<Seq<char>>
    decreases paths.len(),
{
    if paths.len() == 0 {
        Seq::empty()
    } else {
        listed_names(paths.drop_last(), ext) + match listed_name(paths.last(), ext) {
            Some(n) => seq![n],
            None => Seq::<Seq<char>>::empty(),
        }
    }
}

/// Where `x` goes in `sorted`: after every name not greater than it.
pub open spec fn name_insert_pos(sorted: Seq<Seq<char>>, x: Seq<char>) -> nat
    decreases sorted.len(),
{
    if sorted.len() == 0 {
        0
    } else if lex_lt(x, sorted[0]) {
        0
    } else {
        1 + name_insert_pos(sorted.drop_first(), x)
    }
}

/// `s` sorted in code-point order (the order of `slice::sort` on strings).
pub open spec fn sort_names(s: Seq<Seq<char>>) -> Seq<Seq<char>>
    decreases s.len(),
{
    if s.len() == 0 {
        Seq::empty()
    } else {
        let r = sort_names(s.drop_last());
        r.insert(name_insert_pos(r, s.last()) as int, s.last())
    }
}

proof fn lemma_name_insert_pos(sorted: Seq<Seq<char>>, x: Seq<char>, i: int)
    requires
        0 <= i <= sorted.len(),
        forall|j: int| 0 <= j < i ==> !lex_lt(x, #[trigger] sorted[j]),
        i == sorted.len() || lex_lt(x, sorted[i]),
    ensures
        name_insert_pos(sorted, x) == i,
    decreases i,
{
    if i > 0 {
        assert forall|j: int| 0 <= j < i - 1 implies !lex_lt(x, #[trigger] sorted.drop_first()[j]) by {
            assert(sorted.drop_first()[j] == sorted[j + 1]);
        }
        lemma_name_insert_pos(sorted.drop_first(), x, i - 1);
    }
}

/// Code-point order never puts a name before itself.
proof fn lemma_lex_irreflexive(a: Seq<char>)
    ensures
        !lex_lt(a, a),
    decreases a.len(),
{
    if a.len() > 0 {
        lemma_lex_irreflexive(a.drop_first());
    }
}

/// Code-point order is asymmetric and total on names.
proof fn lemma_lex_total(a: Seq<char>, b: Seq<char>)
    ensures
        lex_lt(a, b) ==> !lex_lt(b, a),
        lex_lt(a, b) || lex_lt(b, a) || a == b,
    decreases a.len(),
{
    if a.len() > 0 && b.len() > 0 {
        lemma_lex_total(a.drop_first(), b.drop_first());
        if a[0] == b[0] && a.drop_first() == b.drop_first() {
            assert forall|i: int| 0 <= i < a.len() implies a[i] == b[i] by {
                if i > 0 {
                    assert(a[i] == a.drop_first()[i - 1]);
                    assert(b[i] == b.drop_first()[i - 1]);
                }
            }
            assert(a =~= b);
        }
        if a[0] != b[0] {
            assert((a[0] as int) != (b[0] as int));
        }
    }
    if a.len() == 0 && b.len() == 0 {
        assert(a =~= b);
    }
}

/// Code-point order is transitive.
proof fn lemma_lex_transitive(a: Seq<char>, b: Seq<char>, c: Seq<char>)
    requires
        lex_lt(a, b),
        lex_lt(b, c),
    ensures
        lex_lt(a, c),
    decreases a.len(),
{
    if a.len() > 0 && a[0] == b[0] && b[0] == c[0] {
        lemma_lex_transitive(a.drop_first(), b.drop_first(), c.drop_first());
    }
}

/// Code-point order, strict or not, followed by the strict one, is strict.
proof fn lemma_lex_order(a: Seq<char>, b: Seq<char>, c: Seq<char>)
    ensures
        lex_lt(a, b) ==> !lex_lt(b, a),
        lex_lt(a, b) || lex_lt(b, a) || a == b,
        lex_lt(a, b) && lex_lt(b, c) ==> lex_lt(a, c),
{
    lemma_lex_total(a, b);
    if lex_lt(a, b) && lex_lt(b, c) {
        lemma_lex_transitive(a, b, c);
    }
}

/// Each name is not greater than the names after it.
pub open spec fn names_sorted(s: Seq<Seq<char>>) -> bool {
    forall|i: int, j: int| 0 <= i < j < s.len() ==> !lex_lt(#[trigger] s[j], #[trigger] s[i])
}

/// Inserting a name where [`name_insert_pos`] puts it keeps a sorted list
/// sorted.
proof fn lemma_insert_name_sorted(r: Seq<Seq<char>>, x: Seq<char>)
    requires
        names_sorted(r),
    ensures
        name_insert_pos(r, x) <= r.len(),
        names_sorted(r.insert(name_insert_pos(r, x) as int, x)),
    decreases r.len(),
{
    let p = name_insert_pos(r, x) as int;
    if r.len() > 0 {
        let t = r.drop_first();
        assert(names_sorted(t)) by {
            assert forall|i: int, j: int| 0 <= i < j < t.len() implies !lex_lt(
                #[trigger] t[j],
                #[trigger] t[i],
            ) by {
                assert(t[i] == r[i + 1] && t[j] == r[j + 1]);
            }
        }
        lemma_insert_name_sorted(t, x);
    }
    let e = r.insert(p, x);
    // Before `p` no name is greater than `x`; from `p` on every name is.
    assert forall|k: int| 0 <= k < p implies !lex_lt(x, #[trigger] r[k]) by {
        lemma_insert_pos_prefix(r, x, k);
    }
    assert forall|k: int| p <= k < r.len() implies lex_lt(x, #[trigger] r[k]) by {
        lemma_insert_pos_prefix(r, x, p);
        lemma_lex_order(x, r[p], r[k]);
        lemma_lex_order(r[p], r[k], x);
        if k > p {
            assert(!lex_lt(r[k], r[p]));
        }
    }
    assert forall|i: int, j: int| 0 <= i < j < e.len() implies !lex_lt(
        #[trigger] e[j],
        #[trigger] e[i],
    ) by {
        if j < p {
            assert(e[i] == r[i] && e[j] == r[j]);
        } else if j == p {
            assert(e[i] == r[i]);
        } else if i == p {
            assert(e[j] == r[j - 1]);
            lemma_lex_order(x, r[j - 1], x);
        } else if i < p {
            assert(e[i] == r[i] && e[j] == r[j - 1]);
        } else {
            assert(e[i] == r[i - 1] && e[j] == r[j - 1]);
        }
    }
}

/// What [`name_insert_pos`] says of the names before and at the position.
proof fn lemma_insert_pos_prefix(r: Seq<Seq<char>>, x: Seq<char>, k: int)
    requires
        0 <= k <= name_insert_pos(r, x),
    ensures
        name_insert_pos(r, x) <= r.len(),
        k < name_insert_pos(r, x) ==> !lex_lt(x, r[k]),
        k == name_insert_pos(r, x) && k < r.len() ==> lex_lt(x, r[k]),
    decreases r.len(),
{
    if r.len() > 0 && !lex_lt(x, r[0]) {
        let t = r.drop_first();
        if k > 0 {
            lemma_insert_pos_prefix(t, x, k - 1);
            if k - 1 < t.len() {
                assert(t[k - 1] == r[k]);
            }
        } else {
            lemma_insert_pos_prefix(t, x, 0);
        }
    }
}

/// In a sorted list, every name from where `x` would go on is greater
/// than `x`, so none equals it.
pub proof fn lemma_key_after_insert_pos(r: Seq<Seq<char>>, x: Seq<char>, k: int)
    requires
        names_sorted(r),
        name_insert_pos(r, x) <= k < r.len(),
    ensures
        lex_lt(x, r[k]),
        r[k] != x,
{
    let p = name_insert_pos(r, x) as int;
    lemma_insert_pos_prefix(r, x, p);
    lemma_lex_order(x, r[p], r[k]);
    lemma_lex_order(r[p], r[k], x);
    if k > p {
        assert(!lex_lt(r[k], r[p]));
    }
    lemma_lex_irreflexive(x);
}

/// Sorting names gives them in code-point order, each name as many times
/// as it was given.
pub proof fn law_sort_names_sorts(s: Seq<Seq<char>>)
    ensures
        names_sorted(sort_names(s)),
        sort_names(s).to_multiset() == s.to_multiset(),
    decreases s.len(),
{
    broadcast use vstd::seq_lib::group_to_multiset_ensures;

    if s.len() > 0 {
        let r = sort_names(s.drop_last());
        law_sort_names_sorts(s.drop_last());
        lemma_insert_name_sorted(r, s.last());
        assert(s.drop_last().push(s.last()) =~= s);
    } else {
        assert(s.to_multiset() =~= vstd::multiset::Multiset::<Seq<char>>::empty());
        assert(sort_names(s).to_multiset() =~= vstd::multiset::Multiset::<Seq<char>>::empty());
    }
}

/// The names of the saved playlists among the files `paths` of the
/// playlist directory: the stems of the files with extension `ext`,
/// without `_last`, sorted.
pub fn saved_names(paths: &Vec<String>, ext: &str) -> (r: Vec<String>)
    ensures
        string_views(r@) == sort_names(listed_names(string_views(paths@), ext@)),
{
    let ghost ps = string_views(paths@);
    let target = ext.to_string();
    let last = "_last".to_string();
    let mut names: Vec<String> = Vec::new();
    let n = paths.len();
    let mut i: usize = 0;
    proof {
        assert(ps.take(0) =~= Seq::<Seq<char>>::empty());
        assert(string_views(names@) =~= Seq::<Seq<char>>::empty());
    }
    while i < n
        invariant
            i <= n,
            n == paths@.len(),
            ps == string_views(paths@),
            target@ == ext@,
            last@ == "_last"@,
            string_views(names@) == listed_names(ps.take(i as int), ext@),
        decreases n - i,
    {
        let p = paths[i].as_str();
        proof {
            assert(ps[i as int] == paths@[i as int]@);
            assert(ps.take(i + 1).drop_last() =~= ps.take(i as int));
            assert(ps.take(i + 1).last() == ps[i as int]);
        }
        let matches_ext = match path_extension(p) {
            Some(e) => e == target,
            None => false,
        };
        if matches_ext {
            match path_file_stem(p) {
                Some(stem) => {
                    if stem != last {
                        names.push(stem);
                        proof {
                            assert(string_views(names@) =~= listed_names(ps.take(i + 1), ext@));
                        }
                    } else {
                        proof {
                            assert(listed_names(ps.take(i + 1), ext@) =~= listed_names(ps.take(i as int), ext@));
                        }
                    }
                },
                None => {
                    proof {
                        assert(listed_names(ps.take(i + 1), ext@) =~= listed_names(ps.take(i as int), ext@));
                    }
                },
            }
        } else {
            proof {
                assert(listed_names(ps.take(i + 1), ext@) =~= listed_names(ps.take(i as int), ext@));
            }
        }
        i = i + 1;
    }
    proof {
        assert(ps.take(n as int) =~= ps);
    }
    sort_strings(&names)
}

/// Sorts strings in code-point order.
fn sort_strings(v: &Vec<String>) -> (r: Vec<String>)
    ensures
        string_views(r@) == sort_names(string_views(v@)),
{
    let ghost s = string_views(v@);
    let mut sorted: Vec<String> = Vec::new();
    let mut keys: Vec<Vec<char>> = Vec::new();
    let n = v.len();
    let mut i: usize = 0;
    proof {
        assert(s.take(0) =~= Seq::<Seq<char>>::empty());
        assert(string_views(sorted@) =~= Seq::<Seq<char>>::empty());
    }
    while i < n
        invariant
            i <= n,
            n == v@.len(),
            s == string_views(v@),
            string_views(sorted@) == sort_names(s.take(i as int)),
            keys@.len() == sorted@.len(),
            forall|j: int| 0 <= j < keys@.len() ==> #[trigger] keys@[j]@ == sorted@[j]@,
        decreases n - i,
    {
        let e = v[i].clone();
        let k = str_chars(e.as_str());
        let ghost cur = string_views(sorted@);
        let mut p: usize = 0;
        while p < sorted.len() && !lex_less(&k, &keys[p])
            invariant
                p <= sorted@.len(),
                keys@.len() == sorted@.len(),
                cur == string_views(sorted@),
                forall|j: int| 0 <= j < keys@.len() ==> #[trigger] keys@[j]@ == sorted@[j]@,
                forall|j: int| 0 <= j < p ==> !lex_lt(k@, #[trigger] cur[j]),
            decreases sorted@.len() - p,
        {
            proof {
                assert(cur[p as int] == sorted@[p as int]@);
            }
            p = p + 1;
        }
        proof {
            if p < sorted@.len() {
                assert(cur[p as int] == sorted@[p as int]@);
            }
            assert(e@ == s[i as int]);
            lemma_name_insert_pos(cur, e@, p as int);
            assert(s.take(i + 1).drop_last() =~= s.take(i as int));
            assert(s.take(i + 1).last() == e@);
        }
        let ghost prev = sorted@;
        sorted.insert(p, e);
        keys.insert(p, k);
        proof {
            assert(string_views(sorted@) =~= cur.insert(p as int, s[i as int]));
            assert forall|j: int| 0 <= j < keys@.len() implies #[trigger] keys@[j]@ == sorted@[j]@ by {
                if j < p {
                    assert(sorted@[j] == prev[j]);
                } else if j > p {
                    assert(sorted@[j] == prev[j - 1]);
                }
            }
        }
        i = i + 1;
    }
    proof {
        assert(s.take(n as int) =~= s);
    }
    sorted
}

} // verus!

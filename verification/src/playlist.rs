//! Playlist and queue management: track order, the current track,
//! shuffle and repeat.
//!
//! Track paths are held as `String`s and viewed as `Seq<char>`.

use vstd::prelude::*;
use std::collections::hash_map::{DefaultHasher, RandomState};
use std::hash::{BuildHasher, Hasher};
use crate::paths::{
    distinct_paths, has_path, path_join, same_path, spec_components, spec_join, PathKey,
};

verus! {

broadcast use vstd::string::group_string_axioms;

/// Repeat mode for the playlist.
#[derive(Debug, Clone, Copy, PartialEq, Eq, Structural)]
pub enum RepeatMode {
    Off,
    One,
    All,
}

impl Default for RepeatMode {
    fn default() -> (r: Self)
        ensures
            r == RepeatMode::Off,
    {
        RepeatMode::Off
    }
}

/// Errors that can occur with playlist operations.
#[derive(Debug)]
pub enum PlaylistError {
    /// An input/output failure, with the system's message.
    Io(String),
    /// The playlist file is not in a recognised format.
    InvalidFormat,
}

impl PlaylistError {
    /// The error's message.
    pub fn message(&self) -> (r: String)
        ensures
            r@ == match self {
                PlaylistError::Io(s) => "IO error: "@ + s@,
                PlaylistError::InvalidFormat => "Invalid playlist format"@,
            },
    {
        match self {
            PlaylistError::Io(s) => crate::text::prefixed("IO error: ", s.as_str()),
            PlaylistError::InvalidFormat => "Invalid playlist format".to_string(),
        }
    }
}

/// The abstract state of a [`Playlist`].
pub struct PlaylistView {
    /// The track paths, in queue order.
    pub tracks: Seq<Seq<char>>,
    /// Index of the current track, if any.
    pub current: Option<usize>,
    /// Whether shuffle mode is on.
    pub shuffle: bool,
    /// The repeat mode.
    pub repeat: RepeatMode,
    /// The shuffle order: indices into `tracks`.
    pub order: Seq<usize>,
    /// Position reached in the shuffle order.
    pub position: usize,
}

/// `order` lists each of `0..n` exactly once.
pub open spec fn is_permutation(order: Seq<usize>, n: nat) -> bool {
    &&& order.len() == n
    &&& forall|i: int| 0 <= i < n ==> #[trigger] order[i] < n
    &&& forall|i: int, j: int| 0 <= i < j < n ==> #[trigger] order[i] != #[trigger] order[j]
}

/// The shuffle-order entry at `p`, if `p` is inside the order.
pub open spec fn order_at(order: Seq<usize>, p: int) -> Option<usize> {
    if 0 <= p < order.len() {
        Some(order[p])
    } else {
        None
    }
}

/// Exchanging two entries of a permutation gives a permutation.
pub proof fn lemma_swap_keeps_permutation(o: Seq<usize>, i: int, j: int, n: nat)
    requires
        is_permutation(o, n),
        0 <= i < n,
        0 <= j < n,
    ensures
        is_permutation(o.update(i, o[j]).update(j, o[i]), n),
{
    let s = o.update(i, o[j]).update(j, o[i]);
    assert forall|p: int| 0 <= p < n implies #[trigger] s[p] < n by {
    }
    assert forall|p: int, q: int| 0 <= p < q < n implies #[trigger] s[p] != #[trigger] s[q] by {
        let pp = if p == i { j } else if p == j { i } else { p };
        let qq = if q == i { j } else if q == j { i } else { q };
        assert(s[p] == o[pp]);
        assert(s[q] == o[qq]);
        assert(pp != qq);
        if pp < qq {
            assert(o[pp] != o[qq]);
        } else {
            assert(o[qq] != o[pp]);
        }
    }
}

/// `0, 1, .., n - 1`.
pub open spec fn identity_order(n: nat) -> Seq<usize> {
    Seq::new(n, |i: int| i as usize)
}

/// The Fisher-Yates steps still to do on `order` once the positions from
/// `i` up are settled: for each `k` from `i - 1` down to 1, the entry at
/// `k` is exchanged with the one at `draws[k] % (k + 1)`.
pub open spec fn fisher_yates_steps(order: Seq<usize>, i: nat, draws: Seq<u64>) -> Seq<usize>
    decreases i,
{
    if i <= 1 {
        order
    } else {
        let k = i - 1;
        let j = (draws[k] as usize) as int % (k + 1);
        fisher_yates_steps(order.update(k, order[j]).update(j, order[k]), (i - 1) as nat, draws)
    }
}

/// The Fisher-Yates order of `n` entries for the random draws `draws`
/// (`draws[k]` picks the partner of position `k`).
pub open spec fn fisher_yates(n: nat, draws: Seq<u64>) -> Seq<usize> {
    fisher_yates_steps(identity_order(n), n, draws)
}

/// The Fisher-Yates steps keep a permutation a permutation.
pub proof fn lemma_fisher_yates_steps_permutation(order: Seq<usize>, i: nat, draws: Seq<u64>, n: nat)
    requires
        is_permutation(order, n),
        i <= n,
    ensures
        is_permutation(fisher_yates_steps(order, i, draws), n),
    decreases i,
{
    if i > 1 {
        let k = i - 1;
        let j = (draws[k] as usize) as int % (k + 1);
        lemma_swap_keeps_permutation(order, k, j, n);
        lemma_fisher_yates_steps_permutation(
            order.update(k, order[j]).update(j, order[k]),
            (i - 1) as nat,
            draws,
            n,
        );
    }
}

/// The Fisher-Yates order is a permutation, whatever the draws.
pub proof fn law_fisher_yates_permutation(n: nat, draws: Seq<u64>)
    requires
        n <= usize::MAX,
    ensures
        is_permutation(fisher_yates(n, draws), n),
{
    let id = identity_order(n);
    assert forall|i: int| 0 <= i < n implies #[trigger] id[i] == i && id[i] < n by {
    }
    assert forall|i: int, j: int| 0 <= i < j < n implies #[trigger] id[i] != #[trigger] id[j] by {
        assert(id[i] == i && id[j] == j);
    }
    lemma_fisher_yates_steps_permutation(id, n, draws, n);
}

/// The views of a sequence of strings.
pub open spec fn string_views(v: Seq<String>) -> Seq<Seq<char>> {
    v.map_values(|s: String| s@)
}

impl PlaylistView {
    /// The invariant every playlist keeps: the current index points at a
    /// track, and the shuffle order is a permutation of the track indices.
    pub open spec fn well_formed(self) -> bool {
        &&& (self.current matches Some(c) ==> c < self.tracks.len())
        &&& is_permutation(self.order, self.tracks.len())
    }

    /// The track at index `i`, if there is one.
    pub open spec fn track_at(self, i: Option<usize>) -> Option<Seq<char>> {
        match i {
            Some(k) => if k < self.tracks.len() {
                Some(self.tracks[k as int])
            } else {
                None
            },
            None => None,
        }
    }

    /// The current track, if any.
    pub open spec fn current_track(self) -> Option<Seq<char>> {
        self.track_at(self.current)
    }

    /// Same tracks, current index, modes, order and position.
    pub open spec fn same_as(self, other: PlaylistView) -> bool {
        &&& self.tracks == other.tracks
        &&& self.current == other.current
        &&& self.shuffle == other.shuffle
        &&& self.repeat == other.repeat
        &&& self.order == other.order
        &&& self.position == other.position
    }

    /// Same modes, with a freshly drawn shuffle order at position zero.
    pub open spec fn reshuffled_from(self, old: PlaylistView) -> bool {
        &&& self.shuffle == old.shuffle
        &&& self.repeat == old.repeat
        &&& is_permutation(self.order, self.tracks.len())
        &&& exists|draws: Seq<u64>| draws.len() == self.tracks.len() && #[trigger] fisher_yates(
            self.tracks.len(),
            draws,
        ) == self.order
        &&& self.position == 0
    }
}

/// Where the current index goes on "next" when shuffle is off and the
/// playlist is not empty: `Some(index)`, or `None` when the end is
/// reached with repeat off.
pub open spec fn sequential_next(v: PlaylistView) -> Option<usize> {
    match v.repeat {
        RepeatMode::One => v.current,
        _ => {
            let next = match v.current {
                Some(c) => c + 1,
                None => 1,
            };
            if next >= v.tracks.len() {
                if v.repeat == RepeatMode::All {
                    Some(0)
                } else {
                    None
                }
            } else {
                Some(next as usize)
            }
        },
    }
}

/// Where the current index goes on "previous" when shuffle is off and
/// the playlist is not empty.
pub open spec fn sequential_previous(v: PlaylistView) -> usize {
    let current = match v.current {
        Some(c) => c,
        None => 0,
    };
    if current > 0 {
        (current - 1) as usize
    } else if v.repeat == RepeatMode::All {
        (v.tracks.len() - 1) as usize
    } else {
        0
    }
}

/// The sequence `s` with the element at `from` taken out and put back
/// in at `to`.
pub open spec fn moved<A>(s: Seq<A>, from: int, to: int) -> Seq<A> {
    s.remove(from).insert(to, s[from])
}

/// Where the element at index `c` ends up when the element at `from` is
/// moved to `to`.
pub open spec fn moved_index(c: int, from: int, to: int) -> int {
    if c == from {
        to
    } else if from < c && c <= to {
        c - 1
    } else if to <= c && c < from {
        c + 1
    } else {
        c
    }
}

/// The tracks of `s` with every repeat of an earlier track left out; two
/// tracks are the same when they are the same path.
pub open spec fn dedup_seq(s: Seq<Seq<char>>) -> Seq<Seq<char>>
    decreases s.len(),
{
    if s.len() == 0 {
        Seq::empty()
    } else {
        let d = dedup_seq(s.drop_last());
        if has_path(d, s.last()) {
            d
        } else {
            d.push(s.last())
        }
    }
}

/// The track at `i` is not the same path as an earlier one in `s`.
pub open spec fn is_first_occurrence(s: Seq<Seq<char>>, i: int) -> bool {
    !has_path(s.take(i), s[i])
}

/// Where the current track stands after deduplication: a current track
/// that was the first of its kind keeps its place among the kept tracks; a
/// repeat that was current leaves no current track.
pub open spec fn dedup_current(s: Seq<Seq<char>>, current: Option<usize>) -> Option<usize> {
    match current {
        Some(c) => if is_first_occurrence(s, c as int) {
            Some(dedup_seq(s.take(c as int)).len() as usize)
        } else {
            None
        },
        None => None,
    }
}

/// Deduplication keeps a path of each track of `s`, and no other.
pub proof fn lemma_dedup_contains(s: Seq<Seq<char>>, x: Seq<char>)
    ensures
        has_path(dedup_seq(s), x) <==> has_path(s, x),
    decreases s.len(),
{
    if s.len() > 0 {
        let t = s.drop_last();
        lemma_dedup_contains(t, x);
        lemma_dedup_contains(t, s.last());
        let d = dedup_seq(t);
        if has_path(t, x) {
            let k = choose|k: int| 0 <= k < t.len() && #[trigger] same_path(t[k], x);
            assert(same_path(s[k], x));
        }
        if has_path(s, x) && !has_path(t, x) {
            let k = choose|k: int| 0 <= k < s.len() && #[trigger] same_path(s[k], x);
            if k < s.len() - 1 {
                assert(same_path(t[k], x));
            }
            assert(same_path(s.last(), x));
            if has_path(d, s.last()) {
                let m = choose|m: int| 0 <= m < d.len() && #[trigger] same_path(d[m], s.last());
                assert(same_path(d[m], x));
            } else {
                assert(same_path(d.push(s.last())[d.len() as int], x));
            }
        }
        if has_path(dedup_seq(s), x) && !has_path(d, x) {
            let k = choose|k: int| 0 <= k < dedup_seq(s).len() && #[trigger] same_path(
                dedup_seq(s)[k],
                x,
            );
            assert(!has_path(d, s.last()));
            if k < d.len() {
                assert(same_path(d[k], x));
            }
            assert(same_path(s[s.len() - 1], x));
        }
        if has_path(d, x) && !has_path(d, s.last()) {
            let k = choose|k: int| 0 <= k < d.len() && #[trigger] same_path(d[k], x);
            assert(same_path(d.push(s.last())[k], x));
        }
    }
}

/// Deduplication never makes a sequence longer.
pub proof fn lemma_dedup_len(s: Seq<Seq<char>>)
    ensures
        dedup_seq(s).len() <= s.len(),
    decreases s.len(),
{
    if s.len() > 0 {
        lemma_dedup_len(s.drop_last());
    }
}

/// After deduplication no two tracks are the same path.
pub proof fn law_dedup_no_duplicates(s: Seq<Seq<char>>)
    ensures
        distinct_paths(dedup_seq(s)),
    decreases s.len(),
{
    if s.len() > 0 {
        law_dedup_no_duplicates(s.drop_last());
        let d = dedup_seq(s.drop_last());
        if !has_path(d, s.last()) {
            let e = d.push(s.last());
            assert forall|i: int, j: int| 0 <= i < j < e.len() implies !same_path(
                #[trigger] e[i],
                #[trigger] e[j],
            ) by {
                if j == d.len() {
                    if same_path(e[i], e[j]) {
                        assert(same_path(d[i], s.last()));
                    }
                } else {
                    assert(e[i] == d[i] && e[j] == d[j]);
                }
            }
        }
    }
}

/// Deduplicating tracks that are all different paths leaves them as they
/// are.
proof fn lemma_dedup_distinct(s: Seq<Seq<char>>)
    requires
        distinct_paths(s),
    ensures
        dedup_seq(s) == s,
    decreases s.len(),
{
    if s.len() > 0 {
        let t = s.drop_last();
        assert forall|i: int, j: int| 0 <= i < j < t.len() implies !same_path(
            #[trigger] t[i],
            #[trigger] t[j],
        ) by {
            assert(t[i] == s[i] && t[j] == s[j]);
        }
        lemma_dedup_distinct(t);
        if has_path(t, s.last()) {
            let k = choose|k: int| 0 <= k < t.len() && #[trigger] same_path(t[k], s.last());
            assert(same_path(s[k], s[s.len() - 1]));
        }
        assert(t.push(s.last()) =~= s);
    }
}

/// Deduplicating twice is the same as deduplicating once.
pub proof fn law_dedup_idempotent(s: Seq<Seq<char>>)
    ensures
        dedup_seq(dedup_seq(s)) == dedup_seq(s),
{
    law_dedup_no_duplicates(s);
    lemma_dedup_distinct(dedup_seq(s));
}

/// A second deduplication changes nothing: on a playlist whose tracks were
/// just deduplicated, deduplicating again keeps every track, so it removes
/// none, and leaves the current index where it is.
pub proof fn law_second_dedup_changes_nothing(v: PlaylistView, s: Seq<Seq<char>>)
    requires
        v.well_formed(),
        v.tracks == dedup_seq(s),
    ensures
        dedup_seq(v.tracks) == v.tracks,
        v.tracks.len() - dedup_seq(v.tracks).len() == 0,
        dedup_current(v.tracks, v.current) == v.current,
{
    law_dedup_no_duplicates(s);
    lemma_dedup_distinct(v.tracks);
    if let Some(c) = v.current {
        let d = v.tracks;
        let k = c as int;
        let p = d.take(k);
        assert forall|i: int, j: int| 0 <= i < j < p.len() implies !same_path(
            #[trigger] p[i],
            #[trigger] p[j],
        ) by {
            assert(p[i] == d[i] && p[j] == d[j]);
        }
        lemma_dedup_distinct(p);
        assert(!has_path(p, d[k])) by {
            if has_path(p, d[k]) {
                let j = choose|j: int| 0 <= j < p.len() && #[trigger] same_path(p[j], d[k]);
                assert(same_path(d[j], d[k]));
            }
        }
    }
}

/// Moving a track back to where it came from restores the order, and
/// every index follows it back.
pub proof fn law_move_round_trip<A>(s: Seq<A>, from: int, to: int, c: int)
    requires
        0 <= from < s.len(),
        0 <= to < s.len(),
        0 <= c < s.len(),
    ensures
        moved(moved(s, from, to), to, from) == s,
        moved_index(moved_index(c, from, to), to, from) == c,
{
    let m = moved(s, from, to);
    assert(m[to] == s[from]);
    assert(m.remove(to) =~= s.remove(from));
    assert(s.remove(from).insert(from, s[from]) =~= s);
}

/// With shuffle off and repeat not on one track, going to the next track
/// and back returns to the track, as long as it was not the last.
pub proof fn law_next_then_previous(v: PlaylistView, c: usize)
    requires
        !v.shuffle,
        v.repeat != RepeatMode::One,
        v.current == Some(c),
        c + 1 < v.tracks.len(),
        v.tracks.len() <= usize::MAX,
    ensures
        sequential_next(v) == Some((c + 1) as usize),
        sequential_previous(PlaylistView { current: sequential_next(v), ..v }) == c,
{
}

/// Whether one of `keys` equals `key`.
fn contains_key(keys: &Vec<PathKey>, key: &PathKey) -> (r: bool)
    ensures
        r == exists|j: int| 0 <= j < keys@.len() && #[trigger] keys@[j]@ == key@,
{
    let n = keys.len();
    let mut i: usize = 0;
    while i < n
        invariant
            i <= n,
            n == keys@.len(),
            forall|j: int| 0 <= j < i ==> keys@[j]@ != key@,
        decreases n - i,
    {
        if keys[i].matches(key) {
            return true;
        }
        i = i + 1;
    }
    false
}

/// The view of an optional track reference.
pub open spec fn opt_view(r: Option<&String>) -> Option<Seq<char>> {
    match r {
        Some(s) => Some(s@),
        None => None,
    }
}

/// Playlist/queue manager.
pub struct Playlist {
    tracks: Vec<String>,
    current_index: Option<usize>,
    shuffle: bool,
    repeat: RepeatMode,
    shuffle_order: Vec<usize>,
    shuffle_position: usize,
}

impl View for Playlist {
    type V = PlaylistView;

    closed spec fn view(&self) -> PlaylistView {
        PlaylistView {
            tracks: string_views(self.tracks@),
            current: self.current_index,
            shuffle: self.shuffle,
            repeat: self.repeat,
            order: self.shuffle_order@,
            position: self.shuffle_position,
        }
    }
}

/// The shuffle order of `n` tracks for the random draws `draws`: the
/// Fisher-Yates shuffle that, for each position `i` from `n - 1` down to
/// 1, exchanges the entry at `i` with the one at `draws[i] % (i + 1)`.
pub fn shuffle_order_from(n: usize, draws: &Vec<u64>) -> (r: Vec<usize>)
    requires
        draws@.len() == n,
    ensures
        r@ == fisher_yates(n as nat, draws@),
        is_permutation(r@, n as nat),
{
    let mut order: Vec<usize> = Vec::new();
    let mut k: usize = 0;
    while k < n
        invariant
            k <= n,
            order@.len() == k,
            forall|i: int| 0 <= i < k ==> order@[i] == i,
        decreases n - k,
    {
        order.push(k);
        k = k + 1;
    }
    proof {
        assert(order@ =~= identity_order(n as nat));
        law_fisher_yates_permutation(n as nat, draws@);
    }
    let mut i: usize = n;
    while i > 1
        invariant
            i <= n,
            n == draws@.len(),
            order@.len() == n,
            fisher_yates_steps(order@, i as nat, draws@) == fisher_yates(n as nat, draws@),
        decreases i,
    {
        i = i - 1;
        let j = (draws[i] as usize) % (i + 1);
        let a = order[i];
        let b = order[j];
        order.set(i, b);
        order.set(j, a);
    }
    order
}

/// Starts a fresh source of randomness (`RandomState::new`). Nothing is
/// claimed of the state: each process seeds it anew.
#[verifier::external_body]
fn new_random_state() -> RandomState {
    RandomState::new()
}

/// Builds a hasher from a random state (`BuildHasher::build_hasher`).
/// Nothing is claimed of the hasher.
#[verifier::external_body]
fn build_hasher(state: &RandomState) -> DefaultHasher {
    state.build_hasher()
}

/// Feeds a `usize` into a hasher (`Hasher::write_usize`). Nothing is
/// claimed of the hasher's new state.
#[verifier::external_body]
fn hasher_write_usize(h: &mut DefaultHasher, i: usize) {
    h.write_usize(i);
}

impl Playlist {
    /// The playlist invariant.
    pub open spec fn wf(&self) -> bool {
        self@.well_formed()
    }

    /// Creates a new empty playlist.
    pub fn new() -> (r: Self)
        ensures
            r.wf(),
            r@.tracks == Seq::<Seq<char>>::empty(),
            r@.current is None,
            !r@.shuffle,
            r@.repeat == RepeatMode::Off,
            r@.order == Seq::<usize>::empty(),
            r@.position == 0,
    {
        let r = Playlist {
            tracks: Vec::new(),
            current_index: None,
            shuffle: false,
            repeat: RepeatMode::Off,
            shuffle_order: Vec::new(),
            shuffle_position: 0,
        };
        assert(r@.tracks =~= Seq::<Seq<char>>::empty());
        r
    }

    /// Draws a new shuffle order and resets the shuffle position: one
    /// random draw per position (a hash of the position under a freshly
    /// seeded state) is handed to [`shuffle_order_from`].
    fn regenerate_shuffle_order(&mut self)
        ensures
            final(self)@.tracks == old(self)@.tracks,
            final(self)@.current == old(self)@.current,
            final(self)@.reshuffled_from(old(self)@),
            final(self).tracks@ == old(self).tracks@,
    {
        let n = self.tracks.len();
        let state = new_random_state();
        let mut draws: Vec<u64> = Vec::new();
        let mut k: usize = 0;
        while k < n
            invariant
                k <= n,
                draws@.len() == k,
            decreases n - k,
        {
            let mut h = build_hasher(&state);
            hasher_write_usize(&mut h, k);
            draws.push(h.finish());
            k = k + 1;
        }
        let order = shuffle_order_from(n, &draws);
        proof {
            law_fisher_yates_permutation(n as nat, draws@);
            assert(fisher_yates(n as nat, draws@) == order@);
        }
        self.shuffle_order = order;
        self.shuffle_position = 0;
    }

    /// Adds a track to the end of the playlist.
    pub fn add(&mut self, path: String)
        requires
            old(self).wf(),
        ensures
            final(self).wf(),
            final(self)@.tracks == old(self)@.tracks.push(path@),
            final(self)@.current == old(self)@.current,
            final(self)@.reshuffled_from(old(self)@),
    {
        self.tracks.push(path);
        proof {
            assert(string_views(self.tracks@) =~= string_views(old(self).tracks@).push(path@));
        }
        self.regenerate_shuffle_order();
    }

    /// Adds multiple tracks to the end of the playlist, in order.
    pub fn add_many(&mut self, paths: Vec<String>)
        requires
            old(self).wf(),
        ensures
            final(self).wf(),
            final(self)@.tracks == old(self)@.tracks + string_views(paths@),
            final(self)@.current == old(self)@.current,
            final(self)@.reshuffled_from(old(self)@),
    {
        let ghost added = string_views(paths@);
        let ghost start = self.tracks@;
        let mut i: usize = 0;
        let n = paths.len();
        // Move the new paths over one at a time, keeping their order.
        while i < n
            invariant
                i <= n,
                n == paths@.len(),
                added == string_views(paths@),
                string_views(self.tracks@) == string_views(start) + added.take(i as int),
                self.current_index == old(self).current_index,
                self.shuffle == old(self).shuffle,
                self.repeat == old(self).repeat,
                start == old(self).tracks@,
            decreases n - i,
        {
            let t = paths[i].clone();
            let ghost prev = self.tracks@;
            self.tracks.push(t);
            proof {
                assert(string_views(self.tracks@) =~= string_views(prev).push(paths@[i as int]@));
                assert(added.take(i + 1) =~= added.take(i as int).push(paths@[i as int]@));
                assert(string_views(self.tracks@) =~= string_views(start) + added.take(i + 1));
            }
            i = i + 1;
        }
        proof {
            assert(added.take(n as int) =~= added);
        }
        self.regenerate_shuffle_order();
    }

    /// Clears the playlist.
    pub fn clear(&mut self)
        requires
            old(self).wf(),
        ensures
            final(self).wf(),
            final(self)@.tracks == Seq::<Seq<char>>::empty(),
            final(self)@.current is None,
            final(self)@.order == Seq::<usize>::empty(),
            final(self)@.position == 0,
            final(self)@.shuffle == old(self)@.shuffle,
            final(self)@.repeat == old(self)@.repeat,
    {
        self.tracks.clear();
        self.current_index = None;
        self.shuffle_order.clear();
        self.shuffle_position = 0;
        proof {
            assert(string_views(self.tracks@) =~= Seq::<Seq<char>>::empty());
        }
    }

    /// Removes the track at `index`, returning it. The current index keeps
    /// pointing at the same track; it is cleared when that track is the
    /// one removed.
    pub fn remove(&mut self, index: usize) -> (r: Option<String>)
        requires
            old(self).wf(),
        ensures
            final(self).wf(),
            index >= old(self)@.tracks.len() ==> r is None && final(self)@.same_as(old(self)@),
            index < old(self)@.tracks.len() ==> {
                &&& r matches Some(t) && t@ == old(self)@.tracks[index as int]
                &&& final(self)@.tracks == old(self)@.tracks.remove(index as int)
                &&& final(self)@.current == match old(self)@.current {
                    Some(c) => if index < c {
                        Some((c - 1) as usize)
                    } else if index == c {
                        None
                    } else {
                        Some(c)
                    },
                    None => None,
                }
                &&& final(self)@.reshuffled_from(old(self)@)
            },
    {
        if index >= self.tracks.len() {
            return None;
        }
        let removed = self.tracks.remove(index);
        proof {
            assert(string_views(self.tracks@) =~= string_views(old(self).tracks@).remove(index as int));
        }
        match self.current_index {
            Some(current) => {
                if index < current {
                    self.current_index = Some(current - 1);
                } else if index == current {
                    self.current_index = None;
                }
            }
            None => {}
        }
        self.regenerate_shuffle_order();
        Some(removed)
    }

    /// Gets the current track.
    pub fn current(&self) -> (r: Option<&String>)
        requires
            self.wf(),
        ensures
            opt_view(r) == self@.current_track(),
    {
        match self.current_index {
            Some(i) => {
                if i < self.tracks.len() {
                    Some(&self.tracks[i])
                } else {
                    None
                }
            }
            None => None,
        }
    }

    /// Jumps to a specific track by index.
    pub fn jump_to(&mut self, index: usize) -> (r: Option<&String>)
        requires
            old(self).wf(),
        ensures
            final(self).wf(),
            index < old(self)@.tracks.len() ==> final(self)@ == (PlaylistView {
                current: Some(index),
                ..old(self)@
            }) && opt_view(r) == Some(old(self)@.tracks[index as int]),
            index >= old(self)@.tracks.len() ==> final(self)@.same_as(old(self)@) && r is None,
    {
        if index < self.tracks.len() {
            self.current_index = Some(index);
            self.current()
        } else {
            None
        }
    }

    /// Sets shuffle mode; turning it on draws a new shuffle order.
    pub fn set_shuffle(&mut self, shuffle: bool)
        requires
            old(self).wf(),
        ensures
            final(self).wf(),
            final(self)@.tracks == old(self)@.tracks,
            final(self)@.current == old(self)@.current,
            final(self)@.repeat == old(self)@.repeat,
            final(self)@.shuffle == shuffle,
            (shuffle && !old(self)@.shuffle) ==> final(self)@.order.len() == old(self)@.tracks.len()
                && final(self)@.position == 0,
            !(shuffle && !old(self)@.shuffle) ==> final(self)@.order == old(self)@.order
                && final(self)@.position == old(self)@.position,
    {
        if shuffle != self.shuffle {
            self.shuffle = shuffle;
            if shuffle {
                self.regenerate_shuffle_order();
            }
        }
    }

    /// Gets shuffle mode.
    pub fn shuffle(&self) -> (r: bool)
        ensures
            r == self@.shuffle,
    {
        self.shuffle
    }

    /// The position reached in the shuffle order.
    pub fn shuffle_position(&self) -> (r: usize)
        ensures
            r == self@.position,
    {
        self.shuffle_position
    }

    /// Sets repeat mode.
    pub fn set_repeat(&mut self, repeat: RepeatMode)
        requires
            old(self).wf(),
        ensures
            final(self).wf(),
            final(self)@ == (PlaylistView { repeat, ..old(self)@ }),
    {
        self.repeat = repeat;
    }

    /// Gets repeat mode.
    pub fn repeat(&self) -> (r: RepeatMode)
        ensures
            r == self@.repeat,
    {
        self.repeat
    }

    /// Gets all tracks in the playlist.
    pub fn tracks(&self) -> (r: &[String])
        ensures
            string_views(r@) == self@.tracks,
    {
        self.tracks.as_slice()
    }

    /// Gets the number of tracks.
    pub fn len(&self) -> (r: usize)
        ensures
            r == self@.tracks.len(),
    {
        self.tracks.len()
    }

    /// Returns true if the playlist is empty.
    pub fn is_empty(&self) -> (r: bool)
        ensures
            r == (self@.tracks.len() == 0),
    {
        self.tracks.len() == 0
    }

    /// Gets the current track index.
    pub fn current_index(&self) -> (r: Option<usize>)
        ensures
            r == self@.current,
    {
        self.current_index
    }

    /// Advances to the next track.
    ///
    /// Returns the next track, or `None` when the end is reached and
    /// repeat is off (the playlist is then left as it was, except that
    /// the shuffle position moves past the end).
    pub fn next_track(&mut self) -> (r: Option<&String>)
        requires
            old(self).wf(),
            old(self)@.shuffle ==> old(self)@.position < usize::MAX,
        ensures
            final(self).wf(),
            final(self)@.tracks == old(self)@.tracks,
            final(self)@.shuffle == old(self)@.shuffle,
            final(self)@.repeat == old(self)@.repeat,
            old(self)@.tracks.len() == 0 ==> r is None && final(self)@.same_as(old(self)@),
            old(self)@.tracks.len() > 0 && !old(self)@.shuffle ==> {
                &&& final(self)@.order == old(self)@.order
                &&& final(self)@.position == old(self)@.position
                &&& match sequential_next(old(self)@) {
                    Some(c) => final(self)@.current == Some(c) && opt_view(r)
                        == final(self)@.current_track(),
                    None => final(self)@.current == old(self)@.current && r is None,
                }
            },
            old(self)@.tracks.len() > 0 && old(self)@.shuffle ==> {
                let p = old(self)@.position + 1;
                if p < old(self)@.order.len() {
                    &&& final(self)@.order == old(self)@.order
                    &&& final(self)@.position == p
                    &&& final(self)@.current == order_at(old(self)@.order, p)
                    &&& opt_view(r) == final(self)@.current_track()
                } else {
                    match old(self)@.repeat {
                        RepeatMode::Off => {
                            &&& final(self)@.order == old(self)@.order
                            &&& final(self)@.position == p
                            &&& final(self)@.current == old(self)@.current
                            &&& r is None
                        },
                        RepeatMode::All => {
                            &&& is_permutation(final(self)@.order, old(self)@.tracks.len())
                            &&& final(self)@.position == 0
                            &&& final(self)@.current == order_at(final(self)@.order, 0)
                            &&& opt_view(r) == final(self)@.current_track()
                        },
                        RepeatMode::One => {
                            &&& final(self)@.order == old(self)@.order
                            &&& final(self)@.position == old(self)@.position
                            &&& final(self)@.current == order_at(
                                old(self)@.order,
                                old(self)@.position as int,
                            )
                            &&& opt_view(r) == final(self)@.current_track()
                        },
                    }
                }
            },
    {
        if self.tracks.len() == 0 {
            return None;
        }
        let next_index = if self.shuffle {
            self.shuffle_position = self.shuffle_position + 1;
            if self.shuffle_position >= self.shuffle_order.len() {
                match self.repeat {
                    RepeatMode::Off => {
                        return None;
                    },
                    RepeatMode::All => {
                        self.regenerate_shuffle_order();
                        self.shuffle_position = 0;
                    },
                    RepeatMode::One => {
                        self.shuffle_position = self.shuffle_position - 1;
                    },
                }
            }
            if self.shuffle_position < self.shuffle_order.len() {
                Some(self.shuffle_order[self.shuffle_position])
            } else {
                None
            }
        } else {
            match self.repeat {
                RepeatMode::One => self.current_index,
                _ => {
                    let current = match self.current_index {
                        Some(c) => c,
                        None => 0,
                    };
                    let next = current + 1;
                    if next >= self.tracks.len() {
                        match self.repeat {
                            RepeatMode::All => Some(0),
                            _ => {
                                return None;
                            },
                        }
                    } else {
                        Some(next)
                    }
                },
            }
        };
        self.current_index = next_index;
        self.current()
    }

    /// Goes to the previous track.
    pub fn previous(&mut self) -> (r: Option<&String>)
        requires
            old(self).wf(),
        ensures
            final(self).wf(),
            final(self)@.tracks == old(self)@.tracks,
            final(self)@.shuffle == old(self)@.shuffle,
            final(self)@.repeat == old(self)@.repeat,
            final(self)@.order == old(self)@.order,
            old(self)@.tracks.len() == 0 ==> r is None && final(self)@.same_as(old(self)@),
            old(self)@.tracks.len() > 0 ==> {
                &&& opt_view(r) == final(self)@.current_track()
                &&& if old(self)@.shuffle {
                    if old(self)@.position > 0 {
                        &&& final(self)@.position == old(self)@.position - 1
                        &&& final(self)@.current == order_at(
                            old(self)@.order,
                            old(self)@.position - 1,
                        )
                    } else {
                        &&& final(self)@.position == old(self)@.position
                        &&& final(self)@.current == order_at(old(self)@.order, 0)
                    }
                } else {
                    &&& final(self)@.position == old(self)@.position
                    &&& final(self)@.current == Some(sequential_previous(old(self)@))
                }
            },
    {
        if self.tracks.len() == 0 {
            return None;
        }
        let prev_index = if self.shuffle {
            if self.shuffle_position > 0 {
                self.shuffle_position = self.shuffle_position - 1;
                if self.shuffle_position < self.shuffle_order.len() {
                    Some(self.shuffle_order[self.shuffle_position])
                } else {
                    None
                }
            } else {
                if self.shuffle_order.len() > 0 {
                    Some(self.shuffle_order[0])
                } else {
                    None
                }
            }
        } else {
            let current = match self.current_index {
                Some(c) => c,
                None => 0,
            };
            if current > 0 {
                Some(current - 1)
            } else if self.repeat == RepeatMode::All {
                Some(self.tracks.len() - 1)
            } else {
                Some(0)
            }
        };
        self.current_index = prev_index;
        self.current()
    }

    /// Moves a track from one position to another; the current index
    /// follows the track it pointed at. Returns whether both positions
    /// were inside the playlist.
    pub fn move_track(&mut self, from: usize, to: usize) -> (r: bool)
        requires
            old(self).wf(),
        ensures
            final(self).wf(),
            r == (from < old(self)@.tracks.len() && to < old(self)@.tracks.len()),
            !r || from == to ==> final(self)@.same_as(old(self)@),
            r && from != to ==> {
                &&& final(self)@.tracks == moved(old(self)@.tracks, from as int, to as int)
                &&& final(self)@.current == match old(self)@.current {
                    Some(c) => Some(moved_index(c as int, from as int, to as int) as usize),
                    None => None,
                }
                &&& final(self)@.reshuffled_from(old(self)@)
            },
    {
        if from >= self.tracks.len() || to >= self.tracks.len() {
            return false;
        }
        if from == to {
            return true;
        }
        let track = self.tracks.remove(from);
        self.tracks.insert(to, track);
        proof {
            assert(string_views(self.tracks@) =~= moved(
                string_views(old(self).tracks@),
                from as int,
                to as int,
            ));
        }
        match self.current_index {
            Some(current) => {
                if current == from {
                    self.current_index = Some(to);
                } else if from < current && current <= to {
                    self.current_index = Some(current - 1);
                } else if to <= current && current < from {
                    self.current_index = Some(current + 1);
                }
            },
            None => {},
        }
        self.regenerate_shuffle_order();
        true
    }

    /// Finds the index of the first track that is the same path as
    /// `path`.
    pub fn find_index(&self, path: &str) -> (r: Option<usize>)
        ensures
            match r {
                Some(i) => i < self@.tracks.len() && same_path(self@.tracks[i as int], path@)
                    && forall|j: int| 0 <= j < i ==> !same_path(#[trigger] self@.tracks[j], path@),
                None => !has_path(self@.tracks, path@),
            },
    {
        let target = PathKey::of(path);
        let n = self.tracks.len();
        let mut i: usize = 0;
        while i < n
            invariant
                i <= n,
                n == self.tracks@.len(),
                target@ == spec_components(path@),
                forall|j: int| 0 <= j < i ==> !same_path(#[trigger] self@.tracks[j], path@),
            decreases n - i,
        {
            let key = PathKey::of(self.tracks[i].as_str());
            if key.matches(&target) {
                proof {
                    assert(self@.tracks[i as int] == self.tracks@[i as int]@);
                }
                return Some(i);
            }
            proof {
                assert(self@.tracks[i as int] == self.tracks@[i as int]@);
            }
            i = i + 1;
        }
        None
    }

    /// Removes duplicate tracks (tracks that are the same path as an
    /// earlier one), keeping the first occurrence of each.
    /// The current index follows its track when that track is a first
    /// occurrence, and is cleared otherwise.
    ///
    /// Returns the number of duplicates removed.
    pub fn dedup(&mut self) -> (r: usize)
        requires
            old(self).wf(),
        ensures
            final(self).wf(),
            final(self)@.tracks == dedup_seq(old(self)@.tracks),
            r == old(self)@.tracks.len() - final(self)@.tracks.len(),
            final(self)@.current == dedup_current(old(self)@.tracks, old(self)@.current),
            final(self)@.reshuffled_from(old(self)@),
    {
        let ghost s = self@.tracks;
        let old_len = self.tracks.len();
        let current = self.current_index;
        let mut new_tracks: Vec<String> = Vec::new();
        let mut new_keys: Vec<PathKey> = Vec::new();
        let mut new_current: Option<usize> = None;
        let mut i: usize = 0;
        while i < old_len
            invariant
                i <= old_len,
                old_len == s.len(),
                s == old(self)@.tracks,
                self.tracks@ == old(self).tracks@,
                current == old(self)@.current,
                string_views(new_tracks@) == dedup_seq(s.take(i as int)),
                new_keys@.len() == new_tracks@.len(),
                forall|k: int| 0 <= k < new_keys@.len() ==> #[trigger] new_keys@[k]@
                    == spec_components(new_tracks@[k]@),
                new_current matches Some(k) ==> k < new_tracks@.len(),
                new_current == match current {
                    Some(c) => if c < i && is_first_occurrence(s, c as int) {
                        Some(dedup_seq(s.take(c as int)).len() as usize)
                    } else {
                        None
                    },
                    None => None,
                },
            decreases old_len - i,
        {
            proof {
                assert(s.take(i + 1).drop_last() =~= s.take(i as int));
                assert(s.take(i + 1).last() == s[i as int]);
                lemma_dedup_contains(s.take(i as int), s[i as int]);
                lemma_dedup_len(s.take(i as int));
                assert(s[i as int] == self.tracks@[i as int]@);
            }
            let t = self.tracks[i].clone();
            let key = PathKey::of(t.as_str());
            let seen = contains_key(&new_keys, &key);
            proof {
                let d = string_views(new_tracks@);
                if seen {
                    let j = choose|j: int| 0 <= j < new_keys@.len() && #[trigger] new_keys@[j]@
                        == key@;
                    assert(new_keys@[j]@ == spec_components(new_tracks@[j]@));
                    assert(same_path(d[j], t@));
                }
                if has_path(d, t@) {
                    let j = choose|j: int| 0 <= j < d.len() && #[trigger] same_path(d[j], t@);
                    assert(new_keys@[j]@ == spec_components(new_tracks@[j]@));
                    assert(new_keys@[j]@ == key@);
                }
                assert(seen == has_path(d, t@));
            }
            if !seen {
                if current == Some(i) {
                    new_current = Some(new_tracks.len());
                }
                let ghost prev = new_tracks@;
                let ghost prev_keys = new_keys@;
                new_tracks.push(t);
                new_keys.push(key);
                proof {
                    assert(string_views(new_tracks@) =~= string_views(prev).push(t@));
                    assert forall|k: int| 0 <= k < new_keys@.len() implies #[trigger] new_keys@[k]@
                        == spec_components(new_tracks@[k]@) by {
                        if k < prev_keys.len() {
                            assert(new_keys@[k] == prev_keys[k]);
                            assert(new_tracks@[k] == prev[k]);
                        }
                    }
                }
            }
            i = i + 1;
        }
        proof {
            assert(s.take(old_len as int) =~= s);
            lemma_dedup_len(s);
        }
        self.tracks = new_tracks;
        self.current_index = new_current;
        self.regenerate_shuffle_order();
        old_len - self.tracks.len()
    }
}

/// The user's local data directory (`dirs::data_local_dir`), as found in
/// the environment of this process. Nothing is claimed of it: it depends
/// on the platform and the environment.
#[verifier::external_body]
fn data_local_dir() -> Option<String> {
    dirs::data_local_dir().map(|p| p.to_string_lossy().into_owned())
}

/// The user's music directory (`dirs::audio_dir`), as found in the
/// environment of this process. Nothing is claimed of it: it depends on
/// the platform and the environment.
#[verifier::external_body]
fn audio_dir() -> Option<String> {
    dirs::audio_dir().map(|p| p.to_string_lossy().into_owned())
}

/// The playlist directory under a local data directory `base`:
/// `base/horikawa/playlists`.
pub open spec fn playlist_dir_under(base: Seq<char>) -> Seq<char> {
    spec_join(spec_join(base, "horikawa"@), "playlists"@)
}

/// The session file under a local data directory `base`.
pub open spec fn session_file_under(base: Seq<char>) -> Seq<char> {
    spec_join(playlist_dir_under(base), ".session"@)
}

/// The playlist directory under `base`: on Windows `base` is the music
/// directory and playlists go to `base/Horikawa`; elsewhere it is the
/// local data directory and they go to `base/horikawa/playlists`.
pub open spec fn platform_playlist_dir(windows: bool, base: Seq<char>) -> Seq<char> {
    if windows {
        spec_join(base, "Horikawa"@)
    } else {
        playlist_dir_under(base)
    }
}

/// The session file in the playlist directory under `base`.
pub open spec fn platform_session_file(windows: bool, base: Seq<char>) -> Seq<char> {
    spec_join(platform_playlist_dir(windows, base), ".session"@)
}

impl Playlist {
    /// The playlist directory under `base` (see [`platform_playlist_dir`]),
    /// if a base directory is known.
    pub fn playlist_dir_on(windows: bool, base: Option<&str>) -> (r: Option<String>)
        ensures
            match base {
                Some(d) => r matches Some(p) && p@ == platform_playlist_dir(windows, d@),
                None => r is None,
            },
    {
        match base {
            Some(d) => if windows {
                Some(path_join(d, "Horikawa"))
            } else {
                Playlist::playlist_dir_in(Some(d))
            },
            None => None,
        }
    }

    /// The playlist directory of this user on Windows (`windows`: under
    /// the music directory) or elsewhere (under the local data directory),
    /// if the base directory is known.
    pub fn playlist_dir_for(windows: bool) -> (r: Option<String>)
        ensures
            r matches Some(p) ==> exists|base: Seq<char>| p@ == platform_playlist_dir(windows, base),
    {
        let base = if windows {
            audio_dir()
        } else {
            data_local_dir()
        };
        match base {
            Some(d) => Playlist::playlist_dir_on(windows, Some(d.as_str())),
            None => None,
        }
    }

    /// The session file of this user on Windows (`windows`) or elsewhere,
    /// if the base directory is known.
    pub fn session_file_for(windows: bool) -> (r: Option<String>)
        ensures
            r matches Some(p) ==> exists|base: Seq<char>| p@ == platform_session_file(windows, base),
    {
        let base = if windows {
            audio_dir()
        } else {
            data_local_dir()
        };
        match base {
            Some(d) => match Playlist::playlist_dir_on(windows, Some(d.as_str())) {
                Some(dir) => {
                    let f = path_join(dir.as_str(), ".session");
                    assert(f@ == platform_session_file(windows, d@));
                    Some(f)
                },
                None => None,
            },
            None => None,
        }
    }

    /// The playlist directory for a given local data directory, if one
    /// is known: `<data dir>/horikawa/playlists`.
    pub fn playlist_dir_in(data_dir: Option<&str>) -> (r: Option<String>)
        ensures
            match data_dir {
                Some(d) => r matches Some(p) && p@ == playlist_dir_under(d@),
                None => r is None,
            },
    {
        match data_dir {
            Some(d) => {
                let h = path_join(d, "horikawa");
                Some(path_join(h.as_str(), "playlists"))
            },
            None => None,
        }
    }

    /// Gets the playlist directory of the non-Windows layout
    /// (`~/.local/share/horikawa/playlists` on Linux); see
    /// [`Playlist::playlist_dir_for`] for both layouts.
    pub fn playlist_dir() -> (r: Option<String>)
        ensures
            r matches Some(p) ==> exists|base: Seq<char>| p@ == playlist_dir_under(base),
    {
        match data_local_dir() {
            Some(d) => Playlist::playlist_dir_in(Some(d.as_str())),
            None => None,
        }
    }

    /// The session file for a given local data directory, if one is
    /// known.
    pub fn session_file_in(data_dir: Option<&str>) -> (r: Option<String>)
        ensures
            match data_dir {
                Some(d) => r matches Some(p) && p@ == session_file_under(d@),
                None => r is None,
            },
    {
        match Playlist::playlist_dir_in(data_dir) {
            Some(dir) => Some(path_join(dir.as_str(), ".session")),
            None => None,
        }
    }

    /// Gets the session file path for storing the last playlist state, in
    /// the non-Windows layout; see [`Playlist::session_file_for`].
    pub fn session_file() -> (r: Option<String>)
        ensures
            r matches Some(p) ==> exists|base: Seq<char>| p@ == session_file_under(base),
    {
        match data_local_dir() {
            Some(d) => Playlist::session_file_in(Some(d.as_str())),
            None => None,
        }
    }
}

} // verus!

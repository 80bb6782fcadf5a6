//! File browser model: the listing of a directory (directories first,
//! then audio files, each sorted by name regardless of case), filtering,
//! selection and scrolling.
//!
//! Reading a directory is input/output and is done by the caller, which
//! hands over the raw entries as [`ListedItem`]s.

use vstd::prelude::*;
use crate::library::{is_audio_file, is_audio_path};
use crate::persist::{law_sort_names_sorts, name_insert_pos, names_sorted, sort_names};
use crate::paths::{path_is_absolute, path_join, path_parent, spec_is_absolute, spec_join, spec_parent};
use crate::text::{lowercase_chars, lowercase_spec, str_chars};

verus! {

broadcast use vstd::string::group_string_axioms;

/// A raw directory entry as read from the file system.
pub struct ListedItem {
    /// Full path of the entry.
    pub path: String,
    /// File name of the entry.
    pub name: String,
    /// Whether the entry is a directory.
    pub is_dir: bool,
}

/// A file or directory entry in the browser.
pub struct BrowserEntry {
    pub path: String,
    pub name: String,
    pub is_dir: bool,
    pub is_audio: bool,
}

/// The abstract value of a [`ListedItem`].
pub struct ItemModel {
    pub path: Seq<char>,
    pub name: Seq<char>,
    pub is_dir: bool,
}

/// The abstract value of a [`BrowserEntry`].
pub struct EntryModel {
    pub path: Seq<char>,
    pub name: Seq<char>,
    pub is_dir: bool,
    pub is_audio: bool,
}

impl View for ListedItem {
    type V = ItemModel;

    open spec fn view(&self) -> ItemModel {
        ItemModel { path: self.path@, name: self.name@, is_dir: self.is_dir }
    }
}

impl View for BrowserEntry {
    type V = EntryModel;

    open spec fn view(&self) -> EntryModel {
        EntryModel {
            path: self.path@,
            name: self.name@,
            is_dir: self.is_dir,
            is_audio: self.is_audio,
        }
    }
}

/// The views of a sequence of entries.
pub open spec fn entry_views(v: Seq<BrowserEntry>) -> Seq<EntryModel> {
    v.map_values(|e: BrowserEntry| e@)
}

/// The views of a sequence of listed items.
pub open spec fn item_views(v: Seq<ListedItem>) -> Seq<ItemModel> {
    v.map_values(|e: ListedItem| e@)
}

impl BrowserEntry {
    /// A copy of this entry.
    pub fn duplicate(&self) -> (r: BrowserEntry)
        ensures
            r@ == self@,
    {
        BrowserEntry {
            path: self.path.clone(),
            name: self.name.clone(),
            is_dir: self.is_dir,
            is_audio: self.is_audio,
        }
    }
}

// ---------------------------------------------------------------------
// Ordering by name
// ---------------------------------------------------------------------

/// Lexicographic order on characters by code point; for UTF-8 strings
/// this is the byte order that `String`'s `Ord` uses.
pub open spec fn lex_lt(a: Seq<char>, b: Seq<char>) -> bool
    decreases a.len(),
{
    if a.len() == 0 {
        b.len() > 0
    } else if b.len() == 0 {
        false
    } else if a[0] != b[0] {
        (a[0] as int) < (b[0] as int)
    } else {
        lex_lt(a.drop_first(), b.drop_first())
    }
}

/// The sort key of an entry: its name, lowercased.
pub open spec fn name_key(e: EntryModel) -> Seq<char> {
    lowercase_spec(e.name)
}

/// Where `x` goes in `sorted` so that it follows every entry whose key
/// is not greater than its own.
pub open spec fn insert_pos(sorted: Seq<EntryModel>, x: EntryModel) -> nat
    decreases sorted.len(),
{
    if sorted.len() == 0 {
        0
    } else if lex_lt(name_key(x), name_key(sorted[0])) {
        0
    } else {
        1 + insert_pos(sorted.drop_first(), x)
    }
}

/// `s` sorted by [`name_key`], keeping entries with equal keys in the
/// order they come in (a stable sort).
pub open spec fn sort_by_name(s: Seq<EntryModel>) -> Seq<EntryModel>
    decreases s.len(),
{
    if s.len() == 0 {
        Seq::empty()
    } else {
        let r = sort_by_name(s.drop_last());
        r.insert(insert_pos(r, s.last()) as int, s.last())
    }
}

proof fn lemma_sort_len(s: Seq<EntryModel>)
    ensures
        sort_by_name(s).len() == s.len(),
    decreases s.len(),
{
    if s.len() > 0 {
        lemma_sort_len(s.drop_last());
        lemma_insert_pos_bound(sort_by_name(s.drop_last()), s.last());
    }
}

proof fn lemma_insert_pos_bound(sorted: Seq<EntryModel>, x: EntryModel)
    ensures
        insert_pos(sorted, x) <= sorted.len(),
    decreases sorted.len(),
{
    if sorted.len() > 0 && !lex_lt(name_key(x), name_key(sorted[0])) {
        lemma_insert_pos_bound(sorted.drop_first(), x);
    }
}

proof fn lemma_insert_pos(sorted: Seq<EntryModel>, x: EntryModel, i: int)
    requires
        0 <= i <= sorted.len(),
        forall|j: int| 0 <= j < i ==> !lex_lt(name_key(x), name_key(#[trigger] sorted[j])),
        i == sorted.len() || lex_lt(name_key(x), name_key(sorted[i])),
    ensures
        insert_pos(sorted, x) == i,
    decreases i,
{
    if i > 0 {
        assert forall|j: int| 0 <= j < i - 1 implies !lex_lt(
            name_key(x),
            name_key(#[trigger] sorted.drop_first()[j]),
        ) by {
            assert(sorted.drop_first()[j] == sorted[j + 1]);
        }
        lemma_insert_pos(sorted.drop_first(), x, i - 1);
    }
}

/// The sort keys of a sequence of entries.
pub open spec fn entry_keys(s: Seq<EntryModel>) -> Seq<Seq<char>> {
    s.map_values(|e: EntryModel| name_key(e))
}

/// The entries of `s` whose sort key is `k`, in their order.
pub open spec fn with_key(s: Seq<EntryModel>, k: Seq<char>) -> Seq<EntryModel> {
    s.filter(|e: EntryModel| name_key(e) == k)
}

/// An entry goes where its key goes among the keys.
proof fn lemma_insert_pos_keys(r: Seq<EntryModel>, x: EntryModel)
    ensures
        insert_pos(r, x) == name_insert_pos(entry_keys(r), name_key(x)),
    decreases r.len(),
{
    if r.len() > 0 {
        assert(entry_keys(r)[0] == name_key(r[0]));
        assert(entry_keys(r).drop_first() =~= entry_keys(r.drop_first()));
        lemma_insert_pos_keys(r.drop_first(), x);
    }
}

/// Sorting entries sorts their keys.
proof fn lemma_sort_keys(s: Seq<EntryModel>)
    ensures
        entry_keys(sort_by_name(s)) == sort_names(entry_keys(s)),
    decreases s.len(),
{
    if s.len() > 0 {
        let r = sort_by_name(s.drop_last());
        lemma_sort_keys(s.drop_last());
        lemma_insert_pos_keys(r, s.last());
        lemma_insert_pos_bound(r, s.last());
        assert(entry_keys(s).drop_last() =~= entry_keys(s.drop_last()));
        assert(entry_keys(s).last() == name_key(s.last()));
        assert(entry_keys(r.insert(insert_pos(r, s.last()) as int, s.last())) =~= entry_keys(r).insert(
            insert_pos(r, s.last()) as int,
            name_key(s.last()),
        ));
    }
}

/// No entry of `s` has the key `k`: none is kept.
proof fn lemma_with_key_none(s: Seq<EntryModel>, k: Seq<char>)
    requires
        forall|i: int| 0 <= i < s.len() ==> name_key(#[trigger] s[i]) != k,
    ensures
        with_key(s, k) == Seq::<EntryModel>::empty(),
    decreases s.len(),
{
    reveal(Seq::filter);
    if s.len() > 0 {
        assert forall|i: int| 0 <= i < s.drop_last().len() implies name_key(
            #[trigger] s.drop_last()[i],
        ) != k by {
            assert(s.drop_last()[i] == s[i]);
        }
        lemma_with_key_none(s.drop_last(), k);
        assert(name_key(s[s.len() - 1]) != k);
    }
}

/// Every entry is kept when all have the key `k`, and none when none has.
proof fn lemma_with_key_single(x: EntryModel, k: Seq<char>)
    ensures
        with_key(seq![x], k) == if name_key(x) == k {
            seq![x]
        } else {
            Seq::<EntryModel>::empty()
        },
{
    reveal_with_fuel(Seq::filter, 2);
    assert(seq![x].drop_last() =~= Seq::<EntryModel>::empty());
    assert(seq![x].last() == x);
    if name_key(x) == k {
        assert(Seq::<EntryModel>::empty().push(x) =~= seq![x]);
    }
}

/// Sorting entries by name orders them by their keys, keeps each entry as
/// many times as it was given, and keeps the entries with equal keys in
/// the order they came in (the sort is stable).
pub proof fn law_sort_by_name_sorts(s: Seq<EntryModel>)
    ensures
        names_sorted(entry_keys(sort_by_name(s))),
        sort_by_name(s).to_multiset() == s.to_multiset(),
        forall|k: Seq<char>| #[trigger] with_key(sort_by_name(s), k) == with_key(s, k),
    decreases s.len(),
{
    broadcast use vstd::seq_lib::group_to_multiset_ensures;

    lemma_sort_keys(s);
    law_sort_names_sorts(entry_keys(s));
    if s.len() == 0 {
        assert(s.to_multiset() =~= vstd::multiset::Multiset::<EntryModel>::empty());
        assert(sort_by_name(s).to_multiset() =~= vstd::multiset::Multiset::<EntryModel>::empty());
    } else {
        let t = s.drop_last();
        let x = s.last();
        let r = sort_by_name(t);
        law_sort_by_name_sorts(t);
        lemma_sort_keys(t);
        law_sort_names_sorts(entry_keys(t));
        lemma_insert_pos_bound(r, x);
        let p = insert_pos(r, x) as int;
        assert(t.push(x) =~= s);
        // From `p` on, every key is greater than the key of `x`.
        lemma_insert_pos_keys(r, x);
        assert forall|j: int| p <= j < r.len() implies name_key(#[trigger] r[j]) != name_key(x) by {
            lemma_insert_pos_prefix_keys(r, x, j);
        }
        assert forall|k: Seq<char>| #[trigger] with_key(sort_by_name(s), k) == with_key(s, k) by {
            let a = r.take(p);
            let b = r.skip(p);
            assert(r =~= a + b);
            assert(sort_by_name(s) =~= a + seq![x] + b);
            assert(s =~= t + seq![x]);
            let pred = |e: EntryModel| name_key(e) == k;
            Seq::filter_distributes_over_add(a + seq![x], b, pred);
            Seq::filter_distributes_over_add(a, seq![x], pred);
            Seq::filter_distributes_over_add(a, b, pred);
            Seq::filter_distributes_over_add(t, seq![x], pred);
            lemma_with_key_single(x, k);
            if name_key(x) == k {
                assert forall|i: int| 0 <= i < b.len() implies name_key(#[trigger] b[i]) != k by {
                    assert(b[i] == r[p + i]);
                }
                lemma_with_key_none(b, k);
                assert(with_key(r, k) == with_key(a, k) + with_key(b, k));
                assert(with_key(b, k) =~= Seq::<EntryModel>::empty());
                assert(with_key(r, k) =~= with_key(a, k));
            }
            assert(with_key(t, k) == with_key(r, k));
        }
    }
}

/// What [`insert_pos`] says of the entries from the position on.
proof fn lemma_insert_pos_prefix_keys(r: Seq<EntryModel>, x: EntryModel, j: int)
    requires
        names_sorted(entry_keys(r)),
        insert_pos(r, x) <= j < r.len(),
    ensures
        name_key(r[j]) != name_key(x),
{
    let ks = entry_keys(r);
    lemma_insert_pos_keys(r, x);
    crate::persist::lemma_key_after_insert_pos(ks, name_key(x), j);
    assert(ks[j] == name_key(r[j]));
}

/// Whether `a` comes before `b` in code-point order.
pub(crate) fn lex_less(a: &Vec<char>, b: &Vec<char>) -> (r: bool)
    ensures
        r == lex_lt(a@, b@),
{
    let n = a.len();
    let m = b.len();
    let mut i: usize = 0;
    proof {
        assert(a@.skip(0) =~= a@);
        assert(b@.skip(0) =~= b@);
    }
    while i < n && i < m && a[i] == b[i]
        invariant
            i <= n,
            i <= m,
            n == a@.len(),
            m == b@.len(),
            lex_lt(a@, b@) == lex_lt(a@.skip(i as int), b@.skip(i as int)),
        decreases n - i,
    {
        proof {
            let sa = a@.skip(i as int);
            let sb = b@.skip(i as int);
            assert(sa[0] == sb[0]);
            assert(sa.drop_first() =~= a@.skip(i + 1));
            assert(sb.drop_first() =~= b@.skip(i + 1));
        }
        i = i + 1;
    }
    proof {
        let sa = a@.skip(i as int);
        let sb = b@.skip(i as int);
        if i < n && i < m {
            assert(sa[0] == a@[i as int]);
            assert(sb[0] == b@[i as int]);
        }
    }
    if i == n {
        i < m
    } else if i == m {
        false
    } else {
        a[i] < b[i]
    }
}

/// The sort key of an entry: its name lowercased.
fn entry_key(e: &BrowserEntry) -> (r: Vec<char>)
    ensures
        r@ == name_key(e@),
{
    let name = str_chars(e.name.as_str());
    lowercase_chars(&name)
}

/// Sorts entries by lowercased name, stably.
fn sort_entries(v: &Vec<BrowserEntry>) -> (r: Vec<BrowserEntry>)
    ensures
        entry_views(r@) == sort_by_name(entry_views(v@)),
{
    let ghost s = entry_views(v@);
    let mut sorted: Vec<BrowserEntry> = Vec::new();
    let mut keys: Vec<Vec<char>> = Vec::new();
    let n = v.len();
    let mut i: usize = 0;
    proof {
        assert(s.take(0) =~= Seq::<EntryModel>::empty());
        assert(entry_views(sorted@) =~= Seq::<EntryModel>::empty());
    }
    while i < n
        invariant
            i <= n,
            n == v@.len(),
            s == entry_views(v@),
            entry_views(sorted@) == sort_by_name(s.take(i as int)),
            keys@.len() == sorted@.len(),
            forall|j: int| 0 <= j < keys@.len() ==> #[trigger] keys@[j]@ == name_key(sorted@[j]@),
        decreases n - i,
    {
        let e = v[i].duplicate();
        let k = entry_key(&e);
        let ghost cur = entry_views(sorted@);
        let mut p: usize = 0;
        while p < sorted.len() && !lex_less(&k, &keys[p])
            invariant
                p <= sorted@.len(),
                keys@.len() == sorted@.len(),
                cur == entry_views(sorted@),
                forall|j: int| 0 <= j < keys@.len() ==> #[trigger] keys@[j]@ == name_key(
                    sorted@[j]@,
                ),
                forall|j: int| 0 <= j < p ==> !lex_lt(k@, name_key(#[trigger] cur[j])),
            decreases sorted@.len() - p,
        {
            proof {
                assert(cur[p as int] == sorted@[p as int]@);
            }
            p = p + 1;
        }
        proof {
            if p < sorted@.len() {
                assert(cur[p as int] == sorted@[p as int]@);
            }
            assert(k@ == name_key(e@));
            lemma_insert_pos(cur, e@, p as int);
            assert(s.take(i + 1).drop_last() =~= s.take(i as int));
            assert(s.take(i + 1).last() == e@);
        }
        let ghost prev = sorted@;
        sorted.insert(p, e);
        keys.insert(p, k);
        proof {
            assert(entry_views(sorted@) =~= cur.insert(p as int, e@));
            assert forall|j: int| 0 <= j < keys@.len() implies #[trigger] keys@[j]@ == name_key(
                sorted@[j]@,
            ) by {
                if j < p {
                    assert(sorted@[j] == prev[j]);
                } else if j > p {
                    assert(sorted@[j] == prev[j - 1]);
                }
            }
        }
        i = i + 1;
    }
    proof {
        assert(s.take(n as int) =~= s);
    }
    sorted
}

// ---------------------------------------------------------------------
// Building the listing
// ---------------------------------------------------------------------

/// Whether an entry called `name` is hidden: its name starts with a dot
/// and hidden entries are not shown. With `dotdot_exempt`, the name `..`
/// is never hidden.
pub open spec fn is_hidden(name: Seq<char>, show_hidden: bool, dotdot_exempt: bool) -> bool {
    &&& !(dotdot_exempt && name == ".."@)
    &&& name.len() > 0
    &&& name[0] == '.'
    &&& !show_hidden
}

/// The browser entry for a listed item.
pub open spec fn entry_of(it: ItemModel) -> EntryModel {
    EntryModel {
        path: it.path,
        name: it.name,
        is_dir: it.is_dir,
        is_audio: !it.is_dir && is_audio_path(it.path),
    }
}

/// The shown directories among `items`, in listing order.
pub open spec fn listed_dirs(items: Seq<ItemModel>, show_hidden: bool, dotdot_exempt: bool) -> Seq<
    EntryModel,
>
    decreases items.len(),
{
    if items.len() == 0 {
        Seq::empty()
    } else {
        let r = listed_dirs(items.drop_last(), show_hidden, dotdot_exempt);
        let it = items.last();
        if !is_hidden(it.name, show_hidden, dotdot_exempt) && it.is_dir {
            r.push(entry_of(it))
        } else {
            r
        }
    }
}

/// The shown audio files among `items`, in listing order.
pub open spec fn listed_files(items: Seq<ItemModel>, show_hidden: bool, dotdot_exempt: bool) -> Seq<
    EntryModel,
>
    decreases items.len(),
{
    if items.len() == 0 {
        Seq::empty()
    } else {
        let r = listed_files(items.drop_last(), show_hidden, dotdot_exempt);
        let it = items.last();
        if !is_hidden(it.name, show_hidden, dotdot_exempt) && !it.is_dir && is_audio_path(
            it.path,
        ) {
            r.push(entry_of(it))
        } else {
            r
        }
    }
}

/// The `..` entry leading to the parent of `dir`, if it has one.
pub open spec fn parent_entry(dir: Seq<char>) -> Seq<EntryModel> {
    match spec_parent(dir) {
        Some(p) => seq![EntryModel { path: p, name: ".."@, is_dir: true, is_audio: false }],
        None => Seq::empty(),
    }
}

/// The listing of `dir`: the parent entry, the directories sorted by
/// name, then the audio files sorted by name.
pub open spec fn listing(
    dir: Seq<char>,
    items: Seq<ItemModel>,
    show_hidden: bool,
    dotdot_exempt: bool,
) -> Seq<EntryModel> {
    parent_entry(dir) + sort_by_name(listed_dirs(items, show_hidden, dotdot_exempt))
        + sort_by_name(listed_files(items, show_hidden, dotdot_exempt))
}

/// An item is shown unless its name starts with a dot while hidden
/// entries are not shown (`..` excepted when `dotdot_exempt`).
pub open spec fn item_shown(it: ItemModel, show_hidden: bool, dotdot_exempt: bool) -> bool {
    !(it.name.len() > 0 && it.name[0] == '.' && !show_hidden && !(dotdot_exempt && it.name
        == ".."@))
}

/// `e` is the entry of a shown item of `items` that is a directory or an
/// audio file.
pub open spec fn entry_of_shown_item(e: EntryModel, items: Seq<ItemModel>, show_hidden: bool, dotdot_exempt: bool) -> bool {
    exists|k: int|
        0 <= k < items.len() && e == entry_of(#[trigger] items[k]) && item_shown(
            items[k],
            show_hidden,
            dotdot_exempt,
        ) && (items[k].is_dir || is_audio_path(items[k].path))
}

/// The directories listed are exactly the shown directory items.
proof fn lemma_listed_dirs_members(items: Seq<ItemModel>, sh: bool, de: bool, e: EntryModel)
    ensures
        listed_dirs(items, sh, de).contains(e) <==> exists|k: int|
            0 <= k < items.len() && e == entry_of(#[trigger] items[k]) && items[k].is_dir
                && item_shown(items[k], sh, de),
    decreases items.len(),
{
    if items.len() > 0 {
        let t = items.drop_last();
        let r = listed_dirs(t, sh, de);
        lemma_listed_dirs_members(t, sh, de, e);
        let it = items.last();
        assert(items[items.len() - 1] == it);
        if exists|k: int| 0 <= k < t.len() && e == entry_of(#[trigger] t[k]) && t[k].is_dir
            && item_shown(t[k], sh, de) {
            let k = choose|k: int| 0 <= k < t.len() && e == entry_of(#[trigger] t[k]) && t[k].is_dir
                && item_shown(t[k], sh, de);
            assert(items[k] == t[k]);
        }
        if exists|k: int| 0 <= k < items.len() && e == entry_of(#[trigger] items[k]) && items[k].is_dir
            && item_shown(items[k], sh, de) {
            let k = choose|k: int| 0 <= k < items.len() && e == entry_of(#[trigger] items[k])
                && items[k].is_dir && item_shown(items[k], sh, de);
            if k < t.len() {
                assert(t[k] == items[k]);
            }
        }
        if !is_hidden(it.name, sh, de) && it.is_dir {
            let r2 = r.push(entry_of(it));
            assert(r2[r.len() as int] == entry_of(it));
            if r2.contains(e) && !r.contains(e) {
                let j = choose|j: int| 0 <= j < r2.len() && r2[j] == e;
                if j < r.len() {
                    assert(r[j] == e);
                }
            }
            if r.contains(e) {
                let j = choose|j: int| 0 <= j < r.len() && r[j] == e;
                assert(r2[j] == e);
            }
        }
    }
}

/// The files listed are exactly the shown items that are audio files.
proof fn lemma_listed_files_members(items: Seq<ItemModel>, sh: bool, de: bool, e: EntryModel)
    ensures
        listed_files(items, sh, de).contains(e) <==> exists|k: int|
            0 <= k < items.len() && e == entry_of(#[trigger] items[k]) && !items[k].is_dir
                && is_audio_path(items[k].path) && item_shown(items[k], sh, de),
    decreases items.len(),
{
    if items.len() > 0 {
        let t = items.drop_last();
        let r = listed_files(t, sh, de);
        lemma_listed_files_members(t, sh, de, e);
        let it = items.last();
        assert(items[items.len() - 1] == it);
        if exists|k: int| 0 <= k < t.len() && e == entry_of(#[trigger] t[k]) && !t[k].is_dir
            && is_audio_path(t[k].path) && item_shown(t[k], sh, de) {
            let k = choose|k: int| 0 <= k < t.len() && e == entry_of(#[trigger] t[k]) && !t[k].is_dir
                && is_audio_path(t[k].path) && item_shown(t[k], sh, de);
            assert(items[k] == t[k]);
        }
        if exists|k: int| 0 <= k < items.len() && e == entry_of(#[trigger] items[k])
            && !items[k].is_dir && is_audio_path(items[k].path) && item_shown(items[k], sh, de) {
            let k = choose|k: int| 0 <= k < items.len() && e == entry_of(#[trigger] items[k])
                && !items[k].is_dir && is_audio_path(items[k].path) && item_shown(items[k], sh, de);
            if k < t.len() {
                assert(t[k] == items[k]);
            }
        }
        if !is_hidden(it.name, sh, de) && !it.is_dir && is_audio_path(it.path) {
            let r2 = r.push(entry_of(it));
            assert(r2[r.len() as int] == entry_of(it));
            if r2.contains(e) && !r.contains(e) {
                let j = choose|j: int| 0 <= j < r2.len() && r2[j] == e;
                if j < r.len() {
                    assert(r[j] == e);
                }
            }
            if r.contains(e) {
                let j = choose|j: int| 0 <= j < r.len() && r[j] == e;
                assert(r2[j] == e);
            }
        }
    }
}

/// Sorting keeps exactly the entries it is given.
proof fn lemma_sort_contains(s: Seq<EntryModel>, e: EntryModel)
    ensures
        sort_by_name(s).contains(e) <==> s.contains(e),
{
    broadcast use vstd::seq_lib::group_to_multiset_ensures;

    law_sort_by_name_sorts(s);
    assert(sort_by_name(s).to_multiset().count(e) == s.to_multiset().count(e));
}

/// The listing of a directory: apart from the `..` entry first (when the
/// directory has a parent), its entries are exactly the items that are
/// shown (no name starting with a dot unless hidden entries are shown)
/// and are directories or audio files; directories come before files.
pub proof fn law_listing(dir: Seq<char>, items: Seq<ItemModel>, show_hidden: bool, dotdot_exempt: bool)
    ensures
        ({
            let l = listing(dir, items, show_hidden, dotdot_exempt);
            let start = parent_entry(dir).len() as int;
            &&& (spec_parent(dir) is Some ==> start == 1 && l[0].name == ".."@ && l[0].is_dir)
            &&& (spec_parent(dir) is None ==> start == 0)
            &&& forall|i: int, j: int| 0 <= i < j < l.len() && #[trigger] l[j].is_dir ==> #[trigger] l[i].is_dir
            &&& forall|i: int|
                start <= i < l.len() ==> entry_of_shown_item(#[trigger] l[i], items, show_hidden, dotdot_exempt)
            &&& forall|k: int|
                0 <= k < items.len() && item_shown(#[trigger] items[k], show_hidden, dotdot_exempt)
                    && (items[k].is_dir || is_audio_path(items[k].path)) ==> l.subrange(
                    start,
                    l.len() as int,
                ).contains(entry_of(items[k]))
        }),
{
    let sh = show_hidden;
    let de = dotdot_exempt;
    let p = parent_entry(dir);
    let d = sort_by_name(listed_dirs(items, sh, de));
    let f = sort_by_name(listed_files(items, sh, de));
    let l = listing(dir, items, sh, de);
    let start = p.len() as int;
    assert(l == p + d + f);
    assert(forall|it: ItemModel| #[trigger] item_shown(it, sh, de) == !is_hidden(it.name, sh, de));
    assert forall|i: int| 0 <= i < d.len() implies #[trigger] d[i].is_dir && exists|k: int|
        0 <= k < items.len() && d[i] == entry_of(#[trigger] items[k]) && items[k].is_dir
            && item_shown(items[k], sh, de) by {
        lemma_sort_contains(listed_dirs(items, sh, de), d[i]);
        lemma_listed_dirs_members(items, sh, de, d[i]);
    }
    assert forall|i: int| 0 <= i < f.len() implies !(#[trigger] f[i].is_dir) && exists|k: int|
        0 <= k < items.len() && f[i] == entry_of(#[trigger] items[k]) && !items[k].is_dir
            && is_audio_path(items[k].path) && item_shown(items[k], sh, de) by {
        lemma_sort_contains(listed_files(items, sh, de), f[i]);
        lemma_listed_files_members(items, sh, de, f[i]);
    }
    assert forall|i: int, j: int| 0 <= i < j < l.len() && #[trigger] l[j].is_dir implies #[trigger] l[i].is_dir by {
        if j >= start + d.len() {
            assert(l[j] == f[j - start - d.len()]);
        }
        if i < start {
            assert(l[i] == p[i]);
        } else {
            assert(l[i] == d[i - start]);
        }
    }
    assert forall|i: int| start <= i < l.len() implies entry_of_shown_item(
        #[trigger] l[i],
        items,
        show_hidden,
        dotdot_exempt,
    ) by {
        if i < start + d.len() {
            let x = i - start;
            assert(l[i] == d[x]);
            assert(d[x].is_dir);
            let k = choose|k: int|
                0 <= k < items.len() && d[x] == entry_of(#[trigger] items[k]) && items[k].is_dir
                    && item_shown(items[k], sh, de);
            assert(l[i] == entry_of(items[k]));
        } else {
            let x = i - start - d.len();
            assert(l[i] == f[x]);
            assert(!f[x].is_dir);
            let k = choose|k: int|
                0 <= k < items.len() && f[x] == entry_of(#[trigger] items[k]) && !items[k].is_dir
                    && is_audio_path(items[k].path) && item_shown(items[k], sh, de);
            assert(l[i] == entry_of(items[k]));
        }
    }
    if spec_parent(dir) is Some {
        assert(l[0] == p[0]);
    }
    assert forall|k: int|
        0 <= k < items.len() && item_shown(#[trigger] items[k], sh, de) && (items[k].is_dir
            || is_audio_path(items[k].path)) implies l.subrange(start, l.len() as int).contains(
        entry_of(items[k]),
    ) by {
        let e = entry_of(items[k]);
        let rest = l.subrange(start, l.len() as int);
        assert(rest =~= d + f);
        if items[k].is_dir {
            lemma_listed_dirs_members(items, sh, de, e);
            lemma_sort_contains(listed_dirs(items, sh, de), e);
            let j = choose|j: int| 0 <= j < d.len() && d[j] == e;
            assert(rest[j] == e);
        } else {
            lemma_listed_files_members(items, sh, de, e);
            lemma_sort_contains(listed_files(items, sh, de), e);
            let j = choose|j: int| 0 <= j < f.len() && f[j] == e;
            assert(rest[d.len() + j] == e);
        }
    }
}

/// Whether `name` is hidden under the given rules.
fn hidden(name: &String, show_hidden: bool, dotdot_exempt: bool) -> (r: bool)
    ensures
        r == is_hidden(name@, show_hidden, dotdot_exempt),
{
    let v = str_chars(name.as_str());
    let dotdot = crate::text::eq_str(&v, "..");
    !(dotdot_exempt && dotdot) && v.len() > 0 && v[0] == '.' && !show_hidden
}

/// Builds the listing of `dir` from its raw entries.
pub fn build_listing(
    dir: &str,
    items: &Vec<ListedItem>,
    show_hidden: bool,
    dotdot_exempt: bool,
) -> (r: Vec<BrowserEntry>)
    ensures
        entry_views(r@) == listing(dir@, item_views(items@), show_hidden, dotdot_exempt),
{
    let ghost its = item_views(items@);
    let mut dirs: Vec<BrowserEntry> = Vec::new();
    let mut files: Vec<BrowserEntry> = Vec::new();
    let n = items.len();
    let mut i: usize = 0;
    proof {
        assert(its.take(0) =~= Seq::<ItemModel>::empty());
        assert(entry_views(dirs@) =~= Seq::<EntryModel>::empty());
        assert(entry_views(files@) =~= Seq::<EntryModel>::empty());
    }
    while i < n
        invariant
            i <= n,
            n == items@.len(),
            its == item_views(items@),
            entry_views(dirs@) == listed_dirs(its.take(i as int), show_hidden, dotdot_exempt),
            entry_views(files@) == listed_files(its.take(i as int), show_hidden, dotdot_exempt),
        decreases n - i,
    {
        let it = &items[i];
        proof {
            assert(its.take(i + 1).drop_last() =~= its.take(i as int));
            assert(its.take(i + 1).last() == it@);
        }
        if !hidden(&it.name, show_hidden, dotdot_exempt) {
            let is_audio = !it.is_dir && is_audio_file(it.path.as_str());
            let e = BrowserEntry {
                path: it.path.clone(),
                name: it.name.clone(),
                is_dir: it.is_dir,
                is_audio,
            };
            if it.is_dir {
                let ghost prev = dirs@;
                dirs.push(e);
                proof {
                    assert(entry_views(dirs@) =~= entry_views(prev).push(entry_of(it@)));
                }
            } else if is_audio {
                let ghost prev = files@;
                files.push(e);
                proof {
                    assert(entry_views(files@) =~= entry_views(prev).push(entry_of(it@)));
                }
            }
        }
        i = i + 1;
    }
    proof {
        assert(its.take(n as int) =~= its);
    }
    let sorted_dirs = sort_entries(&dirs);
    let sorted_files = sort_entries(&files);
    let mut r: Vec<BrowserEntry> = Vec::new();
    match path_parent(dir) {
        Some(p) => {
            r.push(BrowserEntry { path: p, name: "..".to_string(), is_dir: true, is_audio: false });
        },
        None => {},
    }
    proof {
        assert(entry_views(r@) =~= parent_entry(dir@));
    }
    append_entries(&mut r, &sorted_dirs);
    append_entries(&mut r, &sorted_files);
    r
}

/// Appends copies of `more` to `r`.
fn append_entries(r: &mut Vec<BrowserEntry>, more: &Vec<BrowserEntry>)
    ensures
        entry_views(final(r)@) == entry_views(old(r)@) + entry_views(more@),
{
    let n = more.len();
    let mut i: usize = 0;
    let ghost start = entry_views(r@);
    proof {
        assert(entry_views(more@).take(0) =~= Seq::<EntryModel>::empty());
        assert(start + entry_views(more@).take(0) =~= start);
    }
    while i < n
        invariant
            i <= n,
            n == more@.len(),
            start == entry_views(old(r)@),
            entry_views(r@) == start + entry_views(more@).take(i as int),
        decreases n - i,
    {
        let ghost prev = r@;
        r.push(more[i].duplicate());
        proof {
            assert(entry_views(r@) =~= entry_views(prev).push(more@[i as int]@));
            assert(entry_views(more@).take(i + 1) =~= entry_views(more@).take(i as int).push(
                more@[i as int]@,
            ));
            assert(entry_views(r@) =~= start + entry_views(more@).take(i + 1));
        }
        i = i + 1;
    }
    proof {
        assert(entry_views(more@).take(n as int) =~= entry_views(more@));
    }
}

// ---------------------------------------------------------------------
// Filtering
// ---------------------------------------------------------------------

/// `needle` occurs in `hay` (`str::contains`).
pub open spec fn contains_seq(hay: Seq<char>, needle: Seq<char>) -> bool {
    exists|i: int|
        0 <= i && i + needle.len() <= hay.len() && #[trigger] hay.subrange(i, i + needle.len())
            == needle
}

/// The filter shows an entry: the `..` entry always, every entry when
/// the filter is empty, otherwise entries whose lowercased name contains
/// the lowercased filter.
pub open spec fn shown_by_filter(e: EntryModel, filter: Seq<char>) -> bool {
    ||| e.name == ".."@
    ||| filter.len() == 0
    ||| contains_seq(lowercase_spec(e.name), lowercase_spec(filter))
}

/// Indices of the entries the filter shows, in order.
pub open spec fn filter_indices(entries: Seq<EntryModel>, filter: Seq<char>) -> Seq<usize>
    decreases entries.len(),
{
    if entries.len() == 0 {
        Seq::empty()
    } else {
        let r = filter_indices(entries.drop_last(), filter);
        if shown_by_filter(entries.last(), filter) {
            r.push((entries.len() - 1) as usize)
        } else {
            r
        }
    }
}

/// The filter matches anywhere in a name: an entry whose lowercased name
/// holds the lowercased filter at some position `i` is shown, and its
/// index is among the filtered ones.
pub proof fn law_filter_matches_inside_names(entries: Seq<EntryModel>, filter: Seq<char>, j: int, i: int)
    requires
        0 <= j < entries.len(),
        entries.len() <= usize::MAX,
        0 <= i,
        i + lowercase_spec(filter).len() <= lowercase_spec(entries[j].name).len(),
        lowercase_spec(entries[j].name).subrange(i, i + lowercase_spec(filter).len())
            == lowercase_spec(filter),
    ensures
        shown_by_filter(entries[j], filter),
        filter_indices(entries, filter).contains(j as usize),
    decreases entries.len(),
{
    let hay = lowercase_spec(entries[j].name);
    let needle = lowercase_spec(filter);
    assert(hay.subrange(i, i + needle.len()) == needle);
    assert(contains_seq(hay, needle));
    let r = filter_indices(entries.drop_last(), filter);
    if j == entries.len() - 1 {
        assert(entries.last() == entries[j]);
        assert(filter_indices(entries, filter) == r.push(j as usize));
        assert(r.push(j as usize)[r.len() as int] == j as usize);
    } else {
        assert(entries.drop_last()[j] == entries[j]);
        law_filter_matches_inside_names(entries.drop_last(), filter, j, i);
        let k = choose|k: int| 0 <= k < r.len() && r[k] == j as usize;
        if shown_by_filter(entries.last(), filter) {
            assert(r.push((entries.len() - 1) as usize)[k] == j as usize);
        }
    }
}

/// Every filtered index points at an entry.
pub proof fn lemma_filter_indices_bound(entries: Seq<EntryModel>, filter: Seq<char>)
    ensures
        filter_indices(entries, filter).len() <= entries.len(),
        forall|j: int|
            0 <= j < filter_indices(entries, filter).len() ==> #[trigger] filter_indices(
                entries,
                filter,
            )[j] < entries.len(),
    decreases entries.len(),
{
    if entries.len() > 0 {
        lemma_filter_indices_bound(entries.drop_last(), filter);
    }
}

/// Whether `needle` occurs in `hay`.
fn contains_chars(hay: &Vec<char>, needle: &Vec<char>) -> (r: bool)
    ensures
        r == contains_seq(hay@, needle@),
{
    let n = hay.len();
    let m = needle.len();
    if m > n {
        proof {
            assert forall|i: int| 0 <= i && i + m <= n implies #[trigger] hay@.subrange(i, i + m)
                != needle@ by {}
        }
        return false;
    }
    let mut i: usize = 0;
    while i <= n - m
        invariant
            m <= n,
            n == hay@.len(),
            m == needle@.len(),
            i <= n - m + 1,
            forall|k: int| 0 <= k < i ==> #[trigger] hay@.subrange(k, k + m) != needle@,
        decreases n - m + 1 - i,
    {
        let mut j: usize = 0;
        while j < m && hay[i + j] == needle[j]
            invariant
                j <= m,
                i + m <= n,
                n == hay@.len(),
                m == needle@.len(),
                forall|t: int| 0 <= t < j ==> hay@[i + t] == needle@[t],
            decreases m - j,
        {
            j = j + 1;
        }
        if j == m {
            proof {
                assert(hay@.subrange(i as int, i + m) =~= needle@);
            }
            return true;
        }
        proof {
            assert(hay@.subrange(i as int, i + m)[j as int] != needle@[j as int]);
        }
        i = i + 1;
    }
    false
}

/// The indices of the entries that `filter` shows.
fn compute_filter(entries: &Vec<BrowserEntry>, filter: &String) -> (r: Vec<usize>)
    ensures
        r@ == filter_indices(entry_views(entries@), filter@),
{
    let ghost es = entry_views(entries@);
    let fv = str_chars(filter.as_str());
    let filter_lower = lowercase_chars(&fv);
    let mut r: Vec<usize> = Vec::new();
    let n = entries.len();
    let mut i: usize = 0;
    proof {
        assert(es.take(0) =~= Seq::<EntryModel>::empty());
    }
    while i < n
        invariant
            i <= n,
            n == entries@.len(),
            es == entry_views(entries@),
            fv@ == filter@,
            filter_lower@ == lowercase_spec(filter@),
            r@ == filter_indices(es.take(i as int), filter@),
        decreases n - i,
    {
        let e = &entries[i];
        proof {
            assert(es.take(i + 1).drop_last() =~= es.take(i as int));
            assert(es.take(i + 1).last() == e@);
        }
        let name = str_chars(e.name.as_str());
        let shown = if crate::text::eq_str(&name, "..") {
            true
        } else if fv.len() == 0 {
            true
        } else {
            let lower = lowercase_chars(&name);
            contains_chars(&lower, &filter_lower)
        };
        if shown {
            r.push(i);
        }
        i = i + 1;
    }
    proof {
        assert(es.take(n as int) =~= es);
    }
    r
}

// ---------------------------------------------------------------------
// Scrolling
// ---------------------------------------------------------------------

/// The smaller of two integers.
pub open spec fn min_int(a: int, b: int) -> int {
    if a <= b {
        a
    } else {
        b
    }
}

/// `x`, or zero when `x` is negative (`usize::saturating_sub`).
pub open spec fn sat(x: int) -> int {
    if x < 0 {
        0
    } else {
        x
    }
}

/// Rows kept between the selection and the edge of the view.
pub open spec fn scrolloff_spec(visible_height: int) -> int {
    min_int(visible_height / 2, 5)
}

/// The scroll offset after the selection moved from `old_cursor` to
/// `selected` among `total` rows shown `visible_height` at a time, the
/// offset having been `off`: it moves only when the selection enters the
/// scroll-off zone at an edge.
pub open spec fn scroll_after(
    total: int,
    visible_height: int,
    selected: int,
    old_cursor: int,
    off: int,
) -> int {
    if total <= visible_height || visible_height == 0 {
        0
    } else {
        let so = scrolloff_spec(visible_height);
        if selected > old_cursor {
            if selected < sat(min_int(total, off + visible_height) - so) {
                min_int(off, total - 1)
            } else {
                min_int(total - visible_height, off + selected - old_cursor)
            }
        } else {
            if selected < off + so {
                sat(off - (old_cursor - selected))
            } else {
                min_int(total - 1, off)
            }
        }
    }
}

// ---------------------------------------------------------------------
// The browser
// ---------------------------------------------------------------------

/// What entering the selected entry leads to.
pub enum EnterAction {
    /// The selection is a directory: navigate to it.
    Navigate(String),
    /// The selection is a file: open it.
    Open(String),
    /// Nothing is selected.
    Nothing,
}

/// The abstract state of a [`FileBrowser`].
pub struct FileBrowserView {
    pub current_dir: Seq<char>,
    pub entries: Seq<EntryModel>,
    pub filtered: Seq<usize>,
    pub selected: nat,
    pub filter: Seq<char>,
    pub show_hidden: bool,
    pub scroll_offset: nat,
}

impl FileBrowserView {
    /// The browser invariant: the filtered indices are those the filter
    /// shows, the selection is inside them (zero when there are none),
    /// the scroll offset is within the listing, and the listing fits in
    /// memory.
    pub open spec fn well_formed(self) -> bool {
        &&& self.entries.len() <= usize::MAX
        &&& self.filtered == filter_indices(self.entries, self.filter)
        &&& (self.filtered.len() > 0 ==> self.selected < self.filtered.len())
        &&& (self.filtered.len() == 0 ==> self.selected == 0)
        &&& self.scroll_offset <= self.entries.len()
    }

    /// The selected entry, if any.
    pub open spec fn selected_entry(self) -> Option<EntryModel> {
        if self.selected < self.filtered.len() && self.filtered[self.selected as int]
            < self.entries.len() {
            Some(self.entries[self.filtered[self.selected as int] as int])
        } else {
            None
        }
    }

    /// The entries the filter shows, in order.
    pub open spec fn visible(self) -> Seq<EntryModel> {
        self.filtered.map_values(|i: usize| self.entries[i as int])
    }

    /// The selection lies in the window of `visible_height` rows that
    /// starts at the scroll offset.
    pub open spec fn selection_visible(self, visible_height: nat) -> bool {
        self.scroll_offset <= self.selected < self.scroll_offset + visible_height
    }
}

/// File browser state.
pub struct FileBrowser {
    current_dir: String,
    entries: Vec<BrowserEntry>,
    filtered_indices: Vec<usize>,
    selected: usize,
    filter: String,
    show_hidden: bool,
    scroll_offset: usize,
}

impl View for FileBrowser {
    type V = FileBrowserView;

    closed spec fn view(&self) -> FileBrowserView {
        FileBrowserView {
            current_dir: self.current_dir@,
            entries: entry_views(self.entries@),
            filtered: self.filtered_indices@,
            selected: self.selected as nat,
            filter: self.filter@,
            show_hidden: self.show_hidden,
            scroll_offset: self.scroll_offset as nat,
        }
    }
}

impl FileBrowser {
    /// The browser invariant.
    pub open spec fn wf(&self) -> bool {
        self@.well_formed()
    }

    /// Creates a new file browser at `path`, whose raw entries are
    /// `items`.
    pub fn new(path: String, items: Vec<ListedItem>) -> (r: Self)
        ensures
            r.wf(),
            r@.current_dir == path@,
            r@.entries == listing(path@, item_views(items@), false, true),
            r@.filter == Seq::<char>::empty(),
            !r@.show_hidden,
            r@.selected == 0,
            r@.scroll_offset == 0,
    {
        let mut browser = FileBrowser {
            current_dir: path,
            entries: Vec::new(),
            filtered_indices: Vec::new(),
            selected: 0,
            filter: String::new(),
            show_hidden: false,
            scroll_offset: 0,
        };
        browser.refresh(items);
        browser
    }

    /// Refreshes the listing from the raw entries `items` of the current
    /// directory: resets selection and scrolling, then applies the
    /// filter.
    pub fn refresh(&mut self, items: Vec<ListedItem>)
        ensures
            final(self).wf(),
            final(self)@.current_dir == old(self)@.current_dir,
            final(self)@.entries == listing(
                old(self)@.current_dir,
                item_views(items@),
                old(self)@.show_hidden,
                true,
            ),
            final(self)@.filter == old(self)@.filter,
            final(self)@.show_hidden == old(self)@.show_hidden,
            final(self)@.selected == 0,
            final(self)@.scroll_offset == 0,
    {
        self.entries = build_listing(self.current_dir.as_str(), &items, self.show_hidden, true);
        self.selected = 0;
        self.scroll_offset = 0;
        self.apply_filter();
    }

    /// Where navigating to `path` leads: `path` itself when absolute,
    /// otherwise `path` under the current directory.
    pub fn navigate_target(&self, path: &str) -> (r: String)
        ensures
            r@ == if spec_is_absolute(path@) {
                path@
            } else {
                spec_join(self@.current_dir, path@)
            },
    {
        if path_is_absolute(path) {
            path.to_string()
        } else {
            path_join(self.current_dir.as_str(), path)
        }
    }

    /// Moves to the directory `dir` (which the caller found to be a
    /// directory) with raw entries `items`, clearing the filter.
    pub fn navigate_to(&mut self, dir: String, items: Vec<ListedItem>)
        ensures
            final(self).wf(),
            final(self)@.current_dir == dir@,
            final(self)@.entries == listing(dir@, item_views(items@), old(self)@.show_hidden, true),
            final(self)@.filter == Seq::<char>::empty(),
            final(self)@.show_hidden == old(self)@.show_hidden,
            final(self)@.selected == 0,
            final(self)@.scroll_offset == 0,
    {
        self.current_dir = dir;
        self.filter = String::new();
        self.refresh(items);
    }

    /// Navigates to `path` (resolved by [`FileBrowser::navigate_target`])
    /// when the caller found that target to be a directory (`is_dir`),
    /// with its raw entries `items`; otherwise the browser is left as it
    /// was. Returns whether it moved.
    pub fn navigate_if_dir(&mut self, path: &str, is_dir: bool, items: Vec<ListedItem>) -> (r: bool)
        requires
            old(self).wf(),
        ensures
            final(self).wf(),
            r == is_dir,
            !is_dir ==> final(self)@ == old(self)@,
            is_dir ==> ({
                let t = if spec_is_absolute(path@) {
                    path@
                } else {
                    spec_join(old(self)@.current_dir, path@)
                };
                &&& final(self)@.current_dir == t
                &&& final(self)@.entries == listing(t, item_views(items@), old(self)@.show_hidden, true)
                &&& final(self)@.filter == Seq::<char>::empty()
                &&& final(self)@.show_hidden == old(self)@.show_hidden
                &&& final(self)@.selected == 0
                &&& final(self)@.scroll_offset == 0
            }),
    {
        if is_dir {
            let target = self.navigate_target(path);
            self.navigate_to(target, items);
            true
        } else {
            false
        }
    }

    /// What entering the selected entry leads to: navigating into a
    /// directory, or opening a file.
    pub fn enter_selected(&self) -> (r: EnterAction)
        requires
            self.wf(),
        ensures
            match self@.selected_entry() {
                Some(e) => if e.is_dir {
                    r matches EnterAction::Navigate(p) && p@ == e.path
                } else {
                    r matches EnterAction::Open(p) && p@ == e.path
                },
                None => r is Nothing,
            },
    {
        match self.selected_entry() {
            Some(e) => {
                if e.is_dir {
                    EnterAction::Navigate(e.path.clone())
                } else {
                    EnterAction::Open(e.path.clone())
                }
            },
            None => EnterAction::Nothing,
        }
    }

    /// The parent directory to go up to, if there is one.
    pub fn go_up(&self) -> (r: Option<String>)
        ensures
            crate::paths::opt_str_view(r) == spec_parent(self@.current_dir),
    {
        path_parent(self.current_dir.as_str())
    }

    /// Sets the filter text and updates the visible entries.
    pub fn set_filter(&mut self, filter: String)
        requires
            old(self).wf(),
        ensures
            final(self).wf(),
            final(self)@ == (FileBrowserView {
                filter: filter@,
                filtered: filter_indices(old(self)@.entries, filter@),
                selected: final(self)@.selected,
                ..old(self)@
            }),
            final(self)@.selected == clamp_selection(
                old(self)@.selected,
                filter_indices(old(self)@.entries, filter@).len(),
            ),
    {
        self.filter = filter;
        self.apply_filter();
    }

    /// Clears the filter.
    pub fn clear_filter(&mut self)
        requires
            old(self).wf(),
        ensures
            final(self).wf(),
            final(self)@ == (FileBrowserView {
                filter: Seq::<char>::empty(),
                filtered: filter_indices(old(self)@.entries, Seq::<char>::empty()),
                selected: final(self)@.selected,
                ..old(self)@
            }),
            final(self)@.selected == clamp_selection(
                old(self)@.selected,
                old(self)@.entries.len(),
            ),
            final(self)@.visible() == old(self)@.entries,
    {
        self.filter = String::new();
        self.apply_filter();
        let n = self.entries.len();
        proof {
            assert(entry_views(self.entries@).len() == n);
            lemma_empty_filter_shows_all(entry_views(self.entries@));
            assert(self@.visible() =~= old(self)@.entries);
        }
    }

    fn apply_filter(&mut self)
        requires
            old(self).scroll_offset <= old(self).entries@.len(),
        ensures
            final(self).wf(),
            final(self)@ == (FileBrowserView {
                filtered: filter_indices(old(self)@.entries, old(self)@.filter),
                selected: final(self)@.selected,
                ..old(self)@
            }),
            final(self)@.selected == clamp_selection(
                old(self)@.selected,
                filter_indices(old(self)@.entries, old(self)@.filter).len(),
            ),
    {
        self.filtered_indices = compute_filter(&self.entries, &self.filter);
        if self.selected >= self.filtered_indices.len() {
            self.selected = if self.filtered_indices.len() > 0 {
                self.filtered_indices.len() - 1
            } else {
                0
            };
        }
        let n = self.entries.len();
        proof {
            assert(self@.entries.len() == n);
        }
    }

    /// Rows kept between the selection and the edge of the view.
    fn scrolloff(visible_height: usize) -> (r: usize)
        ensures
            r == scrolloff_spec(visible_height as int),
    {
        let half = visible_height / 2;
        if half < 5 {
            half
        } else {
            5
        }
    }

    fn scroll_to(&mut self, visible_height: usize, old_cursor: usize)
        requires
            old(self).wf(),
            old(self).filtered_indices@.len() > visible_height ==> old(self).scroll_offset
                + visible_height <= usize::MAX,
            old(self).selected < old(self).filtered_indices@.len(),
            old_cursor < old(self).filtered_indices@.len(),
        ensures
            final(self).wf(),
            final(self)@ == (FileBrowserView {
                scroll_offset: scroll_after(
                    old(self)@.filtered.len() as int,
                    visible_height as int,
                    old(self)@.selected as int,
                    old_cursor as int,
                    old(self)@.scroll_offset as int,
                ) as nat,
                ..old(self)@
            }),
    {
        proof {
            lemma_filter_indices_bound(self@.entries, self@.filter);
        }
        let total = self.filtered_indices.len();
        if total <= visible_height || visible_height == 0 {
            self.scroll_offset = 0;
            return;
        }
        let scrolloff = Self::scrolloff(visible_height);
        let old_offset = self.scroll_offset;
        if self.selected > old_cursor {
            let reach = if total < old_offset + visible_height {
                total
            } else {
                old_offset + visible_height
            };
            let edge = if reach >= scrolloff {
                reach - scrolloff
            } else {
                0
            };
            if self.selected < edge {
                self.scroll_offset = if old_offset < total - 1 {
                    old_offset
                } else {
                    total - 1
                };
            } else {
                let limit = total - visible_height;
                let step = self.selected - old_cursor;
                self.scroll_offset = if old_offset >= limit || step >= limit - old_offset {
                    limit
                } else {
                    old_offset + step
                };
            }
        } else {
            if self.selected < old_offset + scrolloff {
                let back = old_cursor - self.selected;
                self.scroll_offset = if old_offset >= back {
                    old_offset - back
                } else {
                    0
                };
            } else {
                self.scroll_offset = if total - 1 < old_offset {
                    total - 1
                } else {
                    old_offset
                };
            }
        }
    }

    /// Moves the selection down, wrapping from the last entry to the
    /// first, and scrolls so that it stays in view.
    pub fn select_next(&mut self, visible_height: usize)
        requires
            old(self).wf(),
            old(self)@.filtered.len() > visible_height ==> old(self)@.scroll_offset + visible_height
                <= usize::MAX,
        ensures
            final(self).wf(),
            old(self)@.filtered.len() == 0 ==> final(self)@ == old(self)@,
            old(self)@.filtered.len() > 0 ==> final(self)@ == (FileBrowserView {
                selected: ((old(self)@.selected + 1) % old(self)@.filtered.len()) as nat,
                scroll_offset: scroll_after(
                    old(self)@.filtered.len() as int,
                    visible_height as int,
                    ((old(self)@.selected + 1) % old(self)@.filtered.len()) as int,
                    old(self)@.selected as int,
                    old(self)@.scroll_offset as int,
                ) as nat,
                ..old(self)@
            }),
            old(self)@.filtered.len() > visible_height > 0 && old(self)@.selection_visible(
                visible_height as nat,
            ) ==> final(self)@.selection_visible(visible_height as nat),
            old(self)@.filtered.len() > visible_height > 0 && old(self)@.selection_visible(
                visible_height as nat,
            ) && old(self)@.scroll_offset + visible_height <= old(self)@.filtered.len()
                ==> final(self)@.scroll_offset + visible_height <= final(self)@.filtered.len(),
    {
        let total = self.filtered_indices.len();
        if total == 0 {
            return;
        }
        let prev = self.selected;
        self.selected = (prev + 1) % total;
        self.scroll_to(visible_height, prev);
        proof {
            if total > visible_height && visible_height > 0 && old(self)@.selection_visible(
                visible_height as nat,
            ) && old(self)@.scroll_offset + visible_height <= total {
                law_selection_step_stays_in_view(old(self)@, visible_height as nat, true);
            }
        }
    }

    /// Moves the selection up, wrapping from the first entry to the last,
    /// and scrolls so that it stays in view.
    pub fn select_previous(&mut self, visible_height: usize)
        requires
            old(self).wf(),
            old(self)@.filtered.len() > visible_height ==> old(self)@.scroll_offset + visible_height
                <= usize::MAX,
        ensures
            final(self).wf(),
            old(self)@.filtered.len() == 0 ==> final(self)@ == old(self)@,
            old(self)@.filtered.len() > 0 ==> final(self)@ == (FileBrowserView {
                selected: previous_index(old(self)@.selected, old(self)@.filtered.len()),
                scroll_offset: scroll_after(
                    old(self)@.filtered.len() as int,
                    visible_height as int,
                    previous_index(old(self)@.selected, old(self)@.filtered.len()) as int,
                    old(self)@.selected as int,
                    old(self)@.scroll_offset as int,
                ) as nat,
                ..old(self)@
            }),
            old(self)@.filtered.len() > visible_height > 0 && old(self)@.selection_visible(
                visible_height as nat,
            ) ==> final(self)@.selection_visible(visible_height as nat),
            old(self)@.filtered.len() > visible_height > 0 && old(self)@.selection_visible(
                visible_height as nat,
            ) && old(self)@.scroll_offset + visible_height <= old(self)@.filtered.len()
                ==> final(self)@.scroll_offset + visible_height <= final(self)@.filtered.len(),
    {
        let total = self.filtered_indices.len();
        if total == 0 {
            return;
        }
        let prev = self.selected;
        self.selected = if prev == 0 {
            total - 1
        } else {
            prev - 1
        };
        self.scroll_to(visible_height, prev);
        proof {
            if total > visible_height && visible_height > 0 && old(self)@.selection_visible(
                visible_height as nat,
            ) && old(self)@.scroll_offset + visible_height <= total {
                law_selection_step_stays_in_view(old(self)@, visible_height as nat, false);
            }
        }
    }

    /// Jumps to the first entry.
    pub fn select_first(&mut self, _visible_height: usize)
        requires
            old(self).wf(),
        ensures
            final(self).wf(),
            old(self)@.filtered.len() == 0 ==> final(self)@ == old(self)@,
            old(self)@.filtered.len() > 0 ==> final(self)@ == (FileBrowserView {
                selected: 0,
                scroll_offset: 0,
                ..old(self)@
            }),
    {
        if self.filtered_indices.len() == 0 {
            return;
        }
        self.selected = 0;
        self.scroll_offset = 0;
    }

    /// Jumps to the last entry, scrolled so that it ends the view.
    pub fn select_last(&mut self, visible_height: usize)
        requires
            old(self).wf(),
        ensures
            final(self).wf(),
            old(self)@.filtered.len() == 0 ==> final(self)@ == old(self)@,
            old(self)@.filtered.len() > 0 ==> final(self)@ == (FileBrowserView {
                selected: (old(self)@.filtered.len() - 1) as nat,
                scroll_offset: sat(old(self)@.filtered.len() - visible_height) as nat,
                ..old(self)@
            }),
    {
        proof {
            lemma_filter_indices_bound(self@.entries, self@.filter);
        }
        let total = self.filtered_indices.len();
        if total == 0 {
            return;
        }
        self.selected = total - 1;
        self.scroll_offset = if total >= visible_height {
            total - visible_height
        } else {
            0
        };
    }

    /// Gets the current scroll offset for the UI list.
    pub fn scroll_offset(&self) -> (r: usize)
        ensures
            r == self@.scroll_offset,
    {
        self.scroll_offset
    }

    /// Gets the currently selected entry.
    pub fn selected_entry(&self) -> (r: Option<&BrowserEntry>)
        requires
            self.wf(),
        ensures
            match r {
                Some(e) => self@.selected_entry() == Some(e@),
                None => self@.selected_entry() is None,
            },
    {
        if self.selected < self.filtered_indices.len() {
            let idx = self.filtered_indices[self.selected];
            if idx < self.entries.len() {
                return Some(&self.entries[idx]);
            }
        }
        None
    }

    /// Gets the entries the filter shows, in order.
    pub fn visible_entries(&self) -> (r: Vec<BrowserEntry>)
        requires
            self.wf(),
        ensures
            entry_views(r@) == self@.visible(),
    {
        proof {
            lemma_filter_indices_bound(self@.entries, self@.filter);
        }
        let mut r: Vec<BrowserEntry> = Vec::new();
        let n = self.filtered_indices.len();
        let mut i: usize = 0;
        while i < n
            invariant
                i <= n,
                n == self.filtered_indices@.len(),
                self.wf(),
                forall|j: int| 0 <= j < n ==> #[trigger] self.filtered_indices@[j]
                    < self.entries@.len(),
                entry_views(r@) == self@.visible().take(i as int),
            decreases n - i,
        {
            let idx = self.filtered_indices[i];
            let ghost prev = r@;
            r.push(self.entries[idx].duplicate());
            proof {
                assert(entry_views(r@) =~= entry_views(prev).push(self.entries@[idx as int]@));
                assert(self@.visible().take(i + 1) =~= self@.visible().take(i as int).push(
                    self@.entries[idx as int],
                ));
            }
            i = i + 1;
        }
        proof {
            assert(self@.visible().take(n as int) =~= self@.visible());
        }
        r
    }

    /// Gets the selected index for UI state.
    pub fn selected_index(&self) -> (r: usize)
        ensures
            r == self@.selected,
    {
        self.selected
    }

    /// Gets the current directory path.
    pub fn current_dir(&self) -> (r: &str)
        ensures
            r@ == self@.current_dir,
    {
        self.current_dir.as_str()
    }

    /// Toggles showing hidden entries and rebuilds the listing from the
    /// raw entries `items` of the current directory.
    pub fn toggle_hidden(&mut self, items: Vec<ListedItem>)
        ensures
            final(self).wf(),
            final(self)@.show_hidden == !old(self)@.show_hidden,
            final(self)@.current_dir == old(self)@.current_dir,
            final(self)@.entries == listing(
                old(self)@.current_dir,
                item_views(items@),
                !old(self)@.show_hidden,
                true,
            ),
            final(self)@.filter == old(self)@.filter,
            final(self)@.selected == 0,
            final(self)@.scroll_offset == 0,
    {
        self.show_hidden = !self.show_hidden;
        self.refresh(items);
    }

    /// Whether a path names an audio file.
    pub fn is_audio_file(path: &str) -> (r: bool)
        ensures
            r == is_audio_path(path@),
    {
        is_audio_file(path)
    }
}

/// The selection after the shown entries became `len` many: kept when
/// still inside, else moved to the last one (zero when none).
pub open spec fn clamp_selection(selected: nat, len: nat) -> nat {
    if selected >= len {
        if len > 0 {
            (len - 1) as nat
        } else {
            0
        }
    } else {
        selected
    }
}

/// The index before `i` among `len` entries, wrapping to the last.
pub open spec fn previous_index(i: nat, len: nat) -> nat {
    if i == 0 {
        (len - 1) as nat
    } else {
        (i - 1) as nat
    }
}

/// An empty filter shows every entry.
pub proof fn lemma_empty_filter_shows_all(entries: Seq<EntryModel>)
    requires
        entries.len() <= usize::MAX,
    ensures
        filter_indices(entries, Seq::<char>::empty()).len() == entries.len(),
        forall|j: int|
            0 <= j < entries.len() ==> #[trigger] filter_indices(entries, Seq::<char>::empty())[j]
                == j,
    decreases entries.len(),
{
    if entries.len() > 0 {
        lemma_empty_filter_shows_all(entries.drop_last());
        let r = filter_indices(entries.drop_last(), Seq::<char>::empty());
        assert(shown_by_filter(entries.last(), Seq::<char>::empty()));
        assert(filter_indices(entries, Seq::<char>::empty()) == r.push(
            (entries.len() - 1) as usize,
        ));
        assert forall|j: int| 0 <= j < entries.len() implies #[trigger] filter_indices(
            entries,
            Seq::<char>::empty(),
        )[j] == j by {
            if j < entries.len() - 1 {
                assert(r[j] == j);
            }
        }
    }
}

/// Moving the selection down and then up returns to where it was, and
/// moving up then down does too, wrapping at both ends.
pub proof fn law_select_next_then_previous(selected: nat, len: nat)
    requires
        selected < len,
    ensures
        previous_index(((selected as int + 1) % (len as int)) as nat, len) == selected,
        (previous_index(selected, len) as int + 1) % (len as int) == selected as int,
{
    let s = selected as int;
    let n = len as int;
    if s + 1 < n {
        assert((s + 1) % n == s + 1) by {
            vstd::arithmetic::div_mod::lemma_small_mod((s + 1) as nat, len);
        }
    } else {
        assert((s + 1) % n == 0) by {
            vstd::arithmetic::div_mod::lemma_mod_self_0(n);
        }
    }
    if s == 0 {
        assert(n % n == 0) by {
            vstd::arithmetic::div_mod::lemma_mod_self_0(n);
        }
    } else {
        assert(s % n == s) by {
            vstd::arithmetic::div_mod::lemma_small_mod(selected, len);
        }
    }
}

/// A selection step keeps the view sound: when more entries are listed
/// than fit, the selection is in view and the view lies within the list,
/// then after moving down (`down`) or up, wrapping at the ends, the new
/// selection is still in view and the view still lies within the list.
pub proof fn law_selection_step_stays_in_view(v: FileBrowserView, visible_height: nat, down: bool)
    requires
        v.filtered.len() > visible_height > 0,
        v.selection_visible(visible_height),
        v.scroll_offset + visible_height <= v.filtered.len(),
    ensures
        ({
            let n = v.filtered.len() as int;
            let s2: int = if down {
                (v.selected as int + 1) % n
            } else {
                previous_index(v.selected, v.filtered.len()) as int
            };
            let o2 = scroll_after(
                n,
                visible_height as int,
                s2,
                v.selected as int,
                v.scroll_offset as int,
            );
            &&& 0 <= o2 <= s2
            &&& s2 < o2 + visible_height
            &&& o2 + visible_height <= n
        }),
{
    let n = v.filtered.len() as int;
    let sel = v.selected as int;
    if down {
        if sel + 1 < n {
            assert((sel + 1) % n == sel + 1) by {
                vstd::arithmetic::div_mod::lemma_small_mod((sel + 1) as nat, n as nat);
            }
        } else {
            assert((sel + 1) % n == 0) by {
                vstd::arithmetic::div_mod::lemma_mod_self_0(n);
            }
        }
    }
}

/// Clearing the filter restores the whole listing: whatever filter was set
/// before, the entries shown after clearing it are all the entries of the
/// directory, `..` included, in listing order.
pub proof fn law_clear_filter_shows_whole_listing(v: FileBrowserView, filter: Seq<char>)
    requires
        v.entries.len() <= usize::MAX,
    ensures
        ({
            let filtered = FileBrowserView {
                filter: filter,
                filtered: filter_indices(v.entries, filter),
                ..v
            };
            let cleared = FileBrowserView {
                filter: Seq::<char>::empty(),
                filtered: filter_indices(filtered.entries, Seq::<char>::empty()),
                ..filtered
            };
            cleared.visible() == v.entries
        }),
{
    lemma_empty_filter_shows_all(v.entries);
    let idx = filter_indices(v.entries, Seq::<char>::empty());
    assert(idx.map_values(|i: usize| v.entries[i as int]) =~= v.entries);
}

} // verus!

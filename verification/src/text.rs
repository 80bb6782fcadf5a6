//! Character-level text utilities used by the parsers of this crate.
//!
//! Text is handled as sequences of `char`; `String` values are viewed as
//! `Seq<char>` by vstd.

use vstd::prelude::*;
use vstd::std_specs::iter::IteratorSpec;

verus! {

broadcast use vstd::string::group_string_axioms;

// ---------------------------------------------------------------------
// Whitespace, trimming and splitting
// ---------------------------------------------------------------------

/// Unicode `White_Space`, the property `char::is_whitespace` tests.
pub open spec fn is_ws(c: char) -> bool {
    let u = c as u32;
    ||| 0x09 <= u <= 0x0D
    ||| u == 0x20
    ||| u == 0x85
    ||| u == 0xA0
    ||| u == 0x1680
    ||| 0x2000 <= u <= 0x200A
    ||| u == 0x2028
    ||| u == 0x2029
    ||| u == 0x202F
    ||| u == 0x205F
    ||| u == 0x3000
}

/// Whether `c` is whitespace (as `char::is_whitespace`).
pub fn is_whitespace(c: char) -> (r: bool)
    ensures
        r == is_ws(c),
{
    let u = c as u32;
    (0x09 <= u && u <= 0x0D) || u == 0x20 || u == 0x85 || u == 0xA0 || u == 0x1680 || (0x2000
        <= u && u <= 0x200A) || u == 0x2028 || u == 0x2029 || u == 0x202F || u == 0x205F || u
        == 0x3000
}

/// Number of whitespace characters at the start of `s`.
pub open spec fn leading_ws(s: Seq<char>) -> nat
    decreases s.len(),
{
    if s.len() > 0 && is_ws(s[0]) {
        1 + leading_ws(s.drop_first())
    } else {
        0
    }
}

/// Number of whitespace characters at the end of `s`.
pub open spec fn trailing_ws(s: Seq<char>) -> nat
    decreases s.len(),
{
    if s.len() > 0 && is_ws(s.last()) {
        1 + trailing_ws(s.drop_last())
    } else {
        0
    }
}

/// Number of non-whitespace characters at the start of `s`.
pub open spec fn word_len(s: Seq<char>) -> nat
    decreases s.len(),
{
    if s.len() > 0 && !is_ws(s[0]) {
        1 + word_len(s.drop_first())
    } else {
        0
    }
}

/// `s` without leading whitespace (`str::trim_start`).
pub open spec fn trim_start(s: Seq<char>) -> Seq<char> {
    s.skip(leading_ws(s) as int)
}

/// `s` without trailing whitespace (`str::trim_end`).
pub open spec fn trim_end(s: Seq<char>) -> Seq<char> {
    s.take(s.len() - trailing_ws(s))
}

/// `s` without leading and trailing whitespace (`str::trim`).
pub open spec fn trim(s: Seq<char>) -> Seq<char> {
    trim_end(trim_start(s))
}

/// `leading_ws` is the index of the first non-whitespace character.
pub proof fn lemma_leading_ws(s: Seq<char>, i: int)
    requires
        0 <= i <= s.len(),
        forall|j: int| 0 <= j < i ==> is_ws(#[trigger] s[j]),
        i == s.len() || !is_ws(s[i]),
    ensures
        leading_ws(s) == i,
    decreases i,
{
    if i > 0 {
        lemma_leading_ws(s.drop_first(), i - 1);
    }
}

/// `leading_ws` is at most the length, and stops at a non-whitespace
/// character.
pub proof fn lemma_leading_ws_bounds(s: Seq<char>)
    ensures
        leading_ws(s) <= s.len(),
        leading_ws(s) < s.len() ==> !is_ws(s[leading_ws(s) as int]),
        forall|j: int| 0 <= j < leading_ws(s) ==> is_ws(#[trigger] s[j]),
    decreases s.len(),
{
    if s.len() > 0 && is_ws(s[0]) {
        lemma_leading_ws_bounds(s.drop_first());
        assert forall|j: int| 0 <= j < leading_ws(s) implies is_ws(#[trigger] s[j]) by {
            if j > 0 {
                assert(s[j] == s.drop_first()[j - 1]);
            }
        }
    }
}

/// `trailing_ws` counts the whitespace run at the end.
pub proof fn lemma_trailing_ws(s: Seq<char>, k: int)
    requires
        0 <= k <= s.len(),
        forall|j: int| s.len() - k <= j < s.len() ==> is_ws(#[trigger] s[j]),
        k == s.len() || !is_ws(s[s.len() - k - 1]),
    ensures
        trailing_ws(s) == k,
    decreases k,
{
    if k > 0 {
        assert forall|j: int| s.drop_last().len() - (k - 1) <= j < s.drop_last().len() implies is_ws(
            #[trigger] s.drop_last()[j],
        ) by {
            assert(s.drop_last()[j] == s[j]);
        }
        lemma_trailing_ws(s.drop_last(), k - 1);
    }
}

/// `word_len` is the index of the first whitespace character.
pub proof fn lemma_word_len(s: Seq<char>, i: int)
    requires
        0 <= i <= s.len(),
        forall|j: int| 0 <= j < i ==> !is_ws(#[trigger] s[j]),
        i == s.len() || is_ws(s[i]),
    ensures
        word_len(s) == i,
    decreases i,
{
    if i > 0 {
        lemma_word_len(s.drop_first(), i - 1);
    }
}

/// `word_len` is at most the length.
pub proof fn lemma_word_len_bounds(s: Seq<char>)
    ensures
        word_len(s) <= s.len(),
    decreases s.len(),
{
    if s.len() > 0 && !is_ws(s[0]) {
        lemma_word_len_bounds(s.drop_first());
    }
}

/// The whitespace-separated words of `s` (`str::split_whitespace`).
pub open spec fn words(s: Seq<char>) -> Seq<Seq<char>>
    decreases s.len(),
{
    let t = trim_start(s);
    if t.len() == 0 {
        Seq::empty()
    } else {
        let w = word_len(t);
        proof {
            lemma_leading_ws_bounds(s);
            lemma_word_len_bounds(t);
        }
        if w == 0 {
            Seq::empty()
        } else {
            seq![t.take(w as int)] + words(t.skip(w as int))
        }
    }
}

/// Index of the first `c` in `s`, if any.
pub open spec fn find_char(s: Seq<char>, c: char) -> Option<nat>
    decreases s.len(),
{
    if s.len() == 0 {
        None
    } else if s[0] == c {
        Some(0)
    } else {
        match find_char(s.drop_first(), c) {
            Some(k) => Some(k + 1),
            None => None,
        }
    }
}

/// `find_char` finds the first occurrence.
pub proof fn lemma_find_char(s: Seq<char>, c: char, i: int)
    requires
        0 <= i <= s.len(),
        forall|j: int| 0 <= j < i ==> #[trigger] s[j] != c,
    ensures
        i < s.len() && s[i] == c ==> find_char(s, c) == Some(i as nat),
        i == s.len() ==> find_char(s, c) is None,
    decreases i,
{
    if i > 0 {
        lemma_find_char(s.drop_first(), c, i - 1);
    }
}

/// Splits at the first `c`: the text before it and, if there is a `c`,
/// the text after it (`str::split_once`, and `splitn(2, c)`).
pub open spec fn split_once(s: Seq<char>, c: char) -> (Seq<char>, Option<Seq<char>>) {
    match find_char(s, c) {
        Some(k) => (s.take(k as int), Some(s.skip(k + 1 as int))),
        None => (s, None),
    }
}

/// Whitespace test on every character of `v` up to `i` gives the
/// leading-whitespace count.
fn count_leading_ws(v: &Vec<char>, from: usize) -> (r: usize)
    requires
        from <= v@.len(),
    ensures
        r == from + leading_ws(v@.skip(from as int)),
        r <= v@.len(),
{
    let n = v.len();
    let mut i = from;
    while i < n && is_whitespace(v[i])
        invariant
            from <= i <= n,
            n == v@.len(),
            forall|j: int| from <= j < i ==> is_ws(#[trigger] v@[j]),
        decreases n - i,
    {
        i = i + 1;
    }
    proof {
        let s = v@.skip(from as int);
        assert forall|j: int| 0 <= j < i - from implies is_ws(#[trigger] s[j]) by {
            assert(s[j] == v@[from + j]);
        }
        lemma_leading_ws(s, i - from);
    }
    i
}

/// Counts the non-whitespace characters starting at `from`.
fn count_word(v: &Vec<char>, from: usize) -> (r: usize)
    requires
        from <= v@.len(),
    ensures
        r == from + word_len(v@.skip(from as int)),
        r <= v@.len(),
{
    let n = v.len();
    let mut i = from;
    while i < n && !is_whitespace(v[i])
        invariant
            from <= i <= n,
            n == v@.len(),
            forall|j: int| from <= j < i ==> !is_ws(#[trigger] v@[j]),
        decreases n - i,
    {
        i = i + 1;
    }
    proof {
        let s = v@.skip(from as int);
        assert forall|j: int| 0 <= j < i - from implies !is_ws(#[trigger] s[j]) by {
            assert(s[j] == v@[from + j]);
        }
        lemma_word_len(s, i - from);
    }
    i
}

/// The characters `v[from..to]`.
pub fn sub_chars(v: &Vec<char>, from: usize, to: usize) -> (r: Vec<char>)
    requires
        from <= to <= v@.len(),
    ensures
        r@ == v@.subrange(from as int, to as int),
{
    let mut r: Vec<char> = Vec::new();
    let mut i = from;
    while i < to
        invariant
            from <= i <= to,
            to <= v@.len(),
            r@ == v@.subrange(from as int, i as int),
        decreases to - i,
    {
        r.push(v[i]);
        proof {
            assert(r@ =~= v@.subrange(from as int, i + 1));
        }
        i = i + 1;
    }
    r
}

/// `v` without leading and trailing whitespace.
pub fn trim_chars(v: &Vec<char>) -> (r: Vec<char>)
    ensures
        r@ == trim(v@),
{
    let n = v.len();
    let start = count_leading_ws(v, 0);
    let mut end = n;
    while end > start && is_whitespace(v[end - 1])
        invariant
            start <= end <= n,
            n == v@.len(),
            forall|j: int| end <= j < n ==> is_ws(#[trigger] v@[j]),
        decreases end,
    {
        end = end - 1;
    }
    proof {
        assert(v@.skip(0) =~= v@);
        let t = trim_start(v@);
        assert(t =~= v@.skip(start as int));
        assert forall|j: int| t.len() - (n - end) <= j < t.len() implies is_ws(#[trigger] t[j]) by {
            assert(t[j] == v@[start + j]);
        }
        if end > start {
            assert(t[t.len() - (n - end) - 1] == v@[end - 1]);
        }
        lemma_trailing_ws(t, n - end);
        assert(trim(v@) =~= v@.subrange(start as int, end as int));
    }
    sub_chars(v, start, end)
}

/// The whitespace-separated words of `v`.
pub fn split_words(v: &Vec<char>) -> (r: Vec<Vec<char>>)
    ensures
        r@.len() == words(v@).len(),
        forall|i: int| 0 <= i < r@.len() ==> #[trigger] r@[i]@ == words(v@)[i],
{
    let n = v.len();
    let mut r: Vec<Vec<char>> = Vec::new();
    let mut pos: usize = 0;
    let ghost mut acc: Seq<Seq<char>> = Seq::empty();
    proof {
        assert(v@.skip(0) =~= v@);
    }
    loop
        invariant
            pos <= n,
            n == v@.len(),
            r@.len() == acc.len(),
            forall|i: int| 0 <= i < r@.len() ==> #[trigger] r@[i]@ == acc[i],
            words(v@) == acc + words(v@.skip(pos as int)),
        decreases n - pos,
    {
        let start = count_leading_ws(v, pos);
        let ghost s = v@.skip(pos as int);
        proof {
            lemma_leading_ws_bounds(s);
            assert(trim_start(s) =~= v@.skip(start as int));
        }
        if start == n {
            proof {
                assert(words(s) =~= Seq::<Seq<char>>::empty());
                assert(acc + words(s) =~= acc);
            }
            return r;
        }
        let end = count_word(v, start);
        let ghost t = v@.skip(start as int);
        proof {
            assert(t[0] == v@[start as int]);
            assert(!is_ws(t[0]));
            assert(word_len(t) > 0);
            assert(t.take(word_len(t) as int) =~= v@.subrange(start as int, end as int));
            assert(t.skip(word_len(t) as int) =~= v@.skip(end as int));
            assert(words(s) =~= seq![v@.subrange(start as int, end as int)] + words(
                v@.skip(end as int),
            ));
        }
        let w = sub_chars(v, start, end);
        r.push(w);
        proof {
            let old_acc = acc;
            acc = acc.push(v@.subrange(start as int, end as int));
            assert(old_acc + (seq![v@.subrange(start as int, end as int)] + words(
                v@.skip(end as int),
            )) =~= acc + words(v@.skip(end as int)));
        }
        pos = end;
    }
}

/// Position of the first `c` in `v`, with the split it induces.
pub fn split_once_chars(v: &Vec<char>, c: char) -> (r: (Vec<char>, Option<Vec<char>>))
    ensures
        r.0@ == split_once(v@, c).0,
        match (r.1, split_once(v@, c).1) {
            (Some(a), Some(b)) => a@ == b,
            (None, None) => true,
            _ => false,
        },
{
    let n = v.len();
    let mut i: usize = 0;
    while i < n && v[i] != c
        invariant
            i <= n,
            n == v@.len(),
            forall|j: int| 0 <= j < i ==> #[trigger] v@[j] != c,
        decreases n - i,
    {
        i = i + 1;
    }
    proof {
        lemma_find_char(v@, c, i as int);
    }
    if i < n {
        (sub_chars(v, 0, i), Some(sub_chars(v, i + 1, n)))
    } else {
        proof {
            assert(v@.subrange(0, n as int) =~= v@);
        }
        (sub_chars(v, 0, n), None)
    }
}

/// A line read by `BufRead::lines` loses the `\r` of a `\r\n` ending.
pub open spec fn strip_cr(l: Seq<char>) -> Seq<char> {
    if l.len() > 0 && l.last() == '\r' {
        l.drop_last()
    } else {
        l
    }
}

/// The lines of a text, as `BufRead::lines` yields them: split at each
/// `\n`, a `\r` before the `\n` dropped, and no empty line after a final
/// `\n`.
pub open spec fn text_lines(s: Seq<char>) -> Seq<Seq<char>>
    decreases s.len(),
{
    match find_char(s, '\n') {
        Some(k) => if k < s.len() {
            seq![strip_cr(s.take(k as int))] + text_lines(s.skip(k + 1 as int))
        } else {
            Seq::empty()
        },
        None => if s.len() == 0 {
            Seq::empty()
        } else {
            seq![s]
        },
    }
}

/// `find_char` gives an index inside the text.
pub proof fn lemma_find_char_bound(s: Seq<char>, c: char)
    ensures
        match find_char(s, c) {
            Some(k) => k < s.len() && s[k as int] == c && forall|j: int|
                0 <= j < k ==> #[trigger] s[j] != c,
            None => forall|j: int| 0 <= j < s.len() ==> #[trigger] s[j] != c,
        },
    decreases s.len(),
{
    if s.len() > 0 && s[0] != c {
        lemma_find_char_bound(s.drop_first(), c);
        assert forall|j: int| 1 <= j < s.len() implies #[trigger] s[j] == s.drop_first()[j - 1] by {}
        match find_char(s.drop_first(), c) {
            Some(k) => {
                assert forall|j: int| 0 <= j < k + 1 implies #[trigger] s[j] != c by {
                    if j > 0 {
                        assert(s[j] == s.drop_first()[j - 1]);
                    }
                }
            },
            None => {
                assert forall|j: int| 0 <= j < s.len() implies #[trigger] s[j] != c by {
                    if j > 0 {
                        assert(s[j] == s.drop_first()[j - 1]);
                    }
                }
            },
        }
    }
}

/// Drops one trailing `\r`.
fn strip_cr_chars(v: Vec<char>) -> (r: Vec<char>)
    ensures
        r@ == strip_cr(v@),
{
    let mut v = v;
    let n = v.len();
    if n > 0 && v[n - 1] == '\r' {
        v.pop();
    }
    v
}

/// The lines of a text, as `BufRead::lines` yields them.
pub fn split_lines(v: &Vec<char>) -> (r: Vec<Vec<char>>)
    ensures
        r@.len() == text_lines(v@).len(),
        forall|i: int| 0 <= i < r@.len() ==> #[trigger] r@[i]@ == text_lines(v@)[i],
{
    let mut r: Vec<Vec<char>> = Vec::new();
    let mut rest = sub_chars(v, 0, v.len());
    let ghost mut acc: Seq<Seq<char>> = Seq::empty();
    proof {
        assert(v@.subrange(0, v@.len() as int) =~= v@);
    }
    loop
        invariant
            r@.len() == acc.len(),
            forall|i: int| 0 <= i < r@.len() ==> #[trigger] r@[i]@ == acc[i],
            text_lines(v@) == acc + text_lines(rest@),
        decreases rest@.len(),
    {
        let ghost before = rest@;
        proof {
            lemma_find_char_bound(before, '\n');
        }
        let (head, tail) = split_once_chars(&rest, '\n');
        match tail {
            Some(t) => {
                let line = strip_cr_chars(head);
                r.push(line);
                proof {
                    let old_acc = acc;
                    acc = acc.push(strip_cr(split_once(before, '\n').0));
                    assert(old_acc + text_lines(before) =~= acc + text_lines(t@));
                }
                rest = t;
            },
            None => {
                if rest.len() > 0 {
                    r.push(head);
                    proof {
                        acc = acc.push(before);
                    }
                }
                proof {
                    assert(text_lines(v@) =~= acc);
                }
                return r;
            },
        }
    }
}

/// A text with no whitespace at either end is its own trim.
pub proof fn lemma_trim_plain(s: Seq<char>)
    requires
        s.len() > 0 ==> !is_ws(s[0]) && !is_ws(s.last()),
    ensures
        trim(s) == s,
{
    assert(leading_ws(s) == 0);
    assert(s.skip(0) =~= s);
    assert(trailing_ws(s) == 0);
    assert(s.take(s.len() as int) =~= s);
}

/// `trailing_ws` is at most the length, and stops at a non-whitespace
/// character.
pub proof fn lemma_trailing_ws_bounds(s: Seq<char>)
    ensures
        trailing_ws(s) <= s.len(),
        trailing_ws(s) < s.len() ==> !is_ws(s[s.len() - trailing_ws(s) - 1]),
    decreases s.len(),
{
    if s.len() > 0 && is_ws(s.last()) {
        lemma_trailing_ws_bounds(s.drop_last());
        let t = s.drop_last();
        if trailing_ws(t) < t.len() {
            assert(s[s.len() - trailing_ws(s) - 1] == t[t.len() - trailing_ws(t) - 1]);
        }
    }
}

/// A trimmed text starts and ends with a non-whitespace character.
pub proof fn lemma_trim_ends(s: Seq<char>)
    ensures
        trim(s).len() > 0 ==> !is_ws(trim(s)[0]) && !is_ws(trim(s).last()),
{
    let t0 = trim_start(s);
    lemma_leading_ws_bounds(s);
    lemma_trailing_ws_bounds(t0);
    let t = trim(s);
    if t.len() > 0 {
        assert(t[0] == t0[0]);
        assert(t0[0] == s[leading_ws(s) as int]);
        assert(t.last() == t0[t0.len() - trailing_ws(t0) - 1]);
    }
}

/// Trimming twice is trimming once.
pub proof fn lemma_trim_idempotent(s: Seq<char>)
    ensures
        trim(trim(s)) == trim(s),
{
    lemma_trim_ends(s);
    lemma_trim_plain(trim(s));
}

/// The ASCII lowercase of an ASCII character is ASCII, is whitespace or a
/// space exactly when the character is, and stays as it is when
/// lowercased again.
pub proof fn lemma_ascii_lower_char(c: char)
    requires
        (c as int) < 128,
    ensures
        (ascii_lower_char(c) as int) < 128,
        is_ws(ascii_lower_char(c)) == is_ws(c),
        (ascii_lower_char(c) == ' ') == (c == ' '),
        ascii_lower_char(ascii_lower_char(c)) == ascii_lower_char(c),
{
    if 65 <= (c as int) <= 90 {
        let r = ascii_lower_char(c);
        assert((r as int) == (c as int) + 32);
        assert((r as u32) == (c as int) + 32);
        assert((c as u32) == (c as int));
    } else {
        assert((c as u32) == (c as int));
    }
}

// ---------------------------------------------------------------------
// Conversions and comparisons
// ---------------------------------------------------------------------

/// Appends one character to a `String` (`String::push`): the text is
/// the old text with the character at its end.
#[verifier::external_body]
pub(crate) fn string_push(s: &mut String, c: char)
    ensures
        final(s)@ == old(s)@.push(c),
{
    s.push(c);
}

/// What `str::to_lowercase` returns for a string (its Unicode lowercase
/// form).
pub uninterp spec fn spec_lowercase(s: Seq<char>) -> Seq<char>;

/// Whether every character of `s` is ASCII.
pub open spec fn is_ascii_text(s: Seq<char>) -> bool {
    forall|i: int| 0 <= i < s.len() ==> (#[trigger] s[i] as int) < 128
}

/// The ASCII lowercase of a character: `A`..`Z` become `a`..`z`, every
/// other character stays.
pub open spec fn ascii_lower_char(c: char) -> char {
    if 65 <= (c as int) <= 90 {
        ((c as int) + 32) as char
    } else {
        c
    }
}

/// The ASCII lowercase of each character of `s`.
pub open spec fn ascii_lowercase(s: Seq<char>) -> Seq<char> {
    Seq::new(s.len(), |i: int| ascii_lower_char(s[i]))
}

/// The lowercase form of `s` (`str::to_lowercase`): on ASCII text, the
/// ASCII lowercase of each character; otherwise what `spec_lowercase`
/// names.
pub open spec fn lowercase_spec(s: Seq<char>) -> Seq<char> {
    if is_ascii_text(s) {
        ascii_lowercase(s)
    } else {
        spec_lowercase(s)
    }
}

/// Lowercases a string (`str::to_lowercase`). The result is what
/// `spec_lowercase` names for the string; on ASCII text it is also the
/// ASCII lowercase of each character, as the standard library documents
/// (`to_lowercase` lowercases ASCII characters as `to_ascii_lowercase`
/// does, and non-ASCII ones besides). Nothing more is claimed.
#[verifier::external_body]
pub(crate) fn str_to_lowercase(s: &str) -> (r: String)
    ensures
        r@ == spec_lowercase(s@),
        is_ascii_text(s@) ==> r@ == ascii_lowercase(s@),
{
    s.to_lowercase()
}

/// Collects the characters of a string slice into a vector.
pub fn str_chars(s: &str) -> (r: Vec<char>)
    ensures
        r@ == s@,
{
    let mut r: Vec<char> = Vec::new();
    for c in it: s.chars()
        invariant
            r@ == it.seq().take(it.index() as int),
    {
        r.push(c);
    }
    assert(r@ =~= s@);
    r
}

/// Builds a `String` from characters.
pub fn chars_to_string(v: &Vec<char>) -> (r: String)
    ensures
        r@ == v@,
{
    let mut r = String::new();
    let n = v.len();
    let mut i: usize = 0;
    while i < n
        invariant
            i <= n,
            n == v@.len(),
            r@ == v@.take(i as int),
        decreases n - i,
    {
        string_push(&mut r, v[i]);
        proof {
            assert(r@ =~= v@.take(i + 1));
        }
        i = i + 1;
    }
    proof {
        assert(v@.take(n as int) =~= v@);
    }
    r
}

/// Lowercases a character sequence.
pub fn lowercase_chars(v: &Vec<char>) -> (r: Vec<char>)
    ensures
        r@ == lowercase_spec(v@),
{
    let s = chars_to_string(v);
    let l = str_to_lowercase(s.as_str());
    str_chars(l.as_str())
}

/// Whether two character sequences are equal.
pub fn chars_eq(a: &Vec<char>, b: &Vec<char>) -> (r: bool)
    ensures
        r == (a@ == b@),
{
    let n = a.len();
    if n != b.len() {
        return false;
    }
    let mut i: usize = 0;
    while i < n
        invariant
            i <= n,
            n == a@.len(),
            n == b@.len(),
            forall|j: int| 0 <= j < i ==> a@[j] == b@[j],
        decreases n - i,
    {
        if a[i] != b[i] {
            return false;
        }
        i = i + 1;
    }
    proof {
        assert(a@ =~= b@);
    }
    true
}

/// Whether `v` spells the string `lit`.
pub fn eq_str(v: &Vec<char>, lit: &str) -> (r: bool)
    ensures
        r == (v@ == lit@),
{
    let w = str_chars(lit);
    chars_eq(v, &w)
}

/// Whether `p` is a prefix of `v`.
pub fn starts_with_chars(v: &Vec<char>, p: &Vec<char>) -> (r: bool)
    ensures
        r == p@.is_prefix_of(v@),
{
    let n = p.len();
    if n > v.len() {
        return false;
    }
    let mut i: usize = 0;
    while i < n
        invariant
            i <= n,
            n == p@.len(),
            n <= v@.len(),
            forall|j: int| 0 <= j < i ==> p@[j] == v@[j],
        decreases n - i,
    {
        if p[i] != v[i] {
            return false;
        }
        i = i + 1;
    }
    true
}

/// The concatenation `a + b` as a new vector.
pub fn concat_chars(a: &Vec<char>, b: &Vec<char>) -> (r: Vec<char>)
    ensures
        r@ == a@ + b@,
{
    let mut r = sub_chars(a, 0, a.len());
    let n = b.len();
    let mut i: usize = 0;
    proof {
        assert(a@.subrange(0, a@.len() as int) =~= a@);
    }
    while i < n
        invariant
            i <= n,
            n == b@.len(),
            r@ == a@ + b@.take(i as int),
        decreases n - i,
    {
        r.push(b[i]);
        proof {
            assert(r@ =~= a@ + b@.take(i + 1));
        }
        i = i + 1;
    }
    proof {
        assert(b@.take(n as int) =~= b@);
    }
    r
}

// ---------------------------------------------------------------------
// Decimal numbers
// ---------------------------------------------------------------------

/// An ASCII decimal digit.
pub open spec fn is_digit(c: char) -> bool {
    '0' <= c && c <= '9'
}

/// The value of a decimal digit.
pub open spec fn digit_value(c: char) -> nat {
    (c as u32 - '0' as u32) as nat
}

/// Every character of `s` is a decimal digit.
pub open spec fn all_digits(s: Seq<char>) -> bool {
    forall|i: int| 0 <= i < s.len() ==> is_digit(#[trigger] s[i])
}

/// The number the decimal digits `s` spell.
pub open spec fn digits_value(s: Seq<char>) -> nat
    decreases s.len(),
{
    if s.len() == 0 {
        0
    } else {
        digits_value(s.drop_last()) * 10 + digit_value(s.last())
    }
}

/// What `str::parse` gives for an unsigned integer type whose largest
/// value is `max`: an optional `+`, then one or more decimal digits
/// whose value is at most `max`.
pub open spec fn parse_unsigned(s: Seq<char>, max: nat) -> Option<nat> {
    let d = if s.len() > 0 && s[0] == '+' {
        s.drop_first()
    } else {
        s
    };
    if d.len() > 0 && all_digits(d) && digits_value(d) <= max {
        Some(digits_value(d))
    } else {
        None
    }
}

/// What `str::parse::<i32>` gives: an optional sign, then one or more
/// decimal digits whose signed value fits in an `i32`.
pub open spec fn parse_i32_spec(s: Seq<char>) -> Option<int> {
    if s.len() > 0 && s[0] == '-' {
        let d = s.drop_first();
        if d.len() > 0 && all_digits(d) && digits_value(d) <= 0x8000_0000 {
            Some(-(digits_value(d) as int))
        } else {
            None
        }
    } else {
        match parse_unsigned(s, 0x7fff_ffff) {
            Some(v) => Some(v as int),
            None => None,
        }
    }
}

/// Digit values never shrink as digits are appended.
pub proof fn lemma_digits_value_prefix(s: Seq<char>, i: int)
    requires
        0 <= i <= s.len(),
    ensures
        digits_value(s.take(i)) <= digits_value(s),
    decreases s.len() - i,
{
    if i < s.len() {
        lemma_digits_value_prefix(s, i + 1);
        assert(s.take(i + 1).drop_last() =~= s.take(i));
    } else {
        assert(s.take(i) =~= s);
    }
}

/// Reads the decimal digits of `d` with the bound `max`.
fn digits_to_u64(d: &Vec<char>, from: usize, max: u64) -> (r: Option<u64>)
    requires
        from <= d@.len(),
    ensures
        ({
            let t = d@.skip(from as int);
            match r {
                Some(v) => all_digits(t) && digits_value(t) <= max && v == digits_value(t),
                None => !(all_digits(t) && digits_value(t) <= max),
            }
        }),
{
    let ghost t = d@.skip(from as int);
    let n = d.len();
    let mut i = from;
    let mut value: u64 = 0;
    proof {
        assert(t.take(0) =~= Seq::<char>::empty());
    }
    while i < n
        invariant
            from <= i <= n,
            n == d@.len(),
            t == d@.skip(from as int),
            all_digits(t.take(i - from)),
            value == digits_value(t.take(i - from)),
            value <= max,
        decreases n - i,
    {
        let c = d[i];
        proof {
            assert(t[i - from] == c);
            assert(t.take(i - from + 1).drop_last() =~= t.take(i - from));
            assert(t.take(i - from + 1).last() == c);
        }
        if !('0' <= c && c <= '9') {
            proof {
                assert(!is_digit(t[i - from]));
            }
            return None;
        }
        let dv = (c as u32 - '0' as u32) as u64;
        if dv > max || value > (max - dv) / 10 {
            proof {
                if dv <= max {
                    assert(value * 10 + dv > max) by (nonlinear_arith)
                        requires
                            value > (max - dv) / 10,
                            dv <= max,
                    ;
                }
                lemma_digits_value_prefix(t, i - from + 1);
            }
            return None;
        }
        proof {
            assert(value * 10 + dv <= max) by (nonlinear_arith)
                requires
                    value <= (max - dv) / 10,
                    dv <= max,
            ;
            assert forall|j: int| 0 <= j < i - from + 1 implies is_digit(
                #[trigger] t.take(i - from + 1)[j],
            ) by {
                if j < i - from {
                    assert(t.take(i - from + 1)[j] == t.take(i - from)[j]);
                }
            }
        }
        value = value * 10 + dv;
        i = i + 1;
    }
    proof {
        assert(t.take(n - from) =~= t);
    }
    Some(value)
}

/// Parses an unsigned decimal number whose largest allowed value is
/// `max`, as `str::parse` does for unsigned integer types.
pub fn parse_unsigned_chars(v: &Vec<char>, max: u64) -> (r: Option<u64>)
    ensures
        match r {
            Some(x) => parse_unsigned(v@, max as nat) == Some(x as nat),
            None => parse_unsigned(v@, max as nat) is None,
        },
{
    let n = v.len();
    let from: usize = if n > 0 && v[0] == '+' {
        1
    } else {
        0
    };
    proof {
        assert(v@.skip(0) =~= v@);
        if from == 1 {
            assert(v@.skip(1) =~= v@.drop_first());
        }
    }
    if from == n {
        return None;
    }
    digits_to_u64(v, from, max)
}

/// Parses a `u64` (`str::parse::<u64>`).
pub fn parse_u64_chars(v: &Vec<char>) -> (r: Option<u64>)
    ensures
        match r {
            Some(x) => parse_unsigned(v@, u64::MAX as nat) == Some(x as nat),
            None => parse_unsigned(v@, u64::MAX as nat) is None,
        },
{
    parse_unsigned_chars(v, u64::MAX)
}

/// Parses a `u32` (`str::parse::<u32>`).
pub fn parse_u32_chars(v: &Vec<char>) -> (r: Option<u32>)
    ensures
        match r {
            Some(x) => parse_unsigned(v@, u32::MAX as nat) == Some(x as nat),
            None => parse_unsigned(v@, u32::MAX as nat) is None,
        },
{
    match parse_unsigned_chars(v, u32::MAX as u64) {
        Some(x) => Some(x as u32),
        None => None,
    }
}

/// Parses a `usize` (`str::parse::<usize>`).
pub fn parse_usize_chars(v: &Vec<char>) -> (r: Option<usize>)
    ensures
        match r {
            Some(x) => parse_unsigned(v@, usize::MAX as nat) == Some(x as nat),
            None => parse_unsigned(v@, usize::MAX as nat) is None,
        },
{
    match parse_unsigned_chars(v, usize::MAX as u64) {
        Some(x) => Some(x as usize),
        None => None,
    }
}

/// Parses an `i32` (`str::parse::<i32>`).
pub fn parse_i32_chars(v: &Vec<char>) -> (r: Option<i32>)
    ensures
        match r {
            Some(x) => parse_i32_spec(v@) == Some(x as int),
            None => parse_i32_spec(v@) is None,
        },
{
    let n = v.len();
    if n > 0 && v[0] == '-' {
        proof {
            assert(v@.skip(1) =~= v@.drop_first());
        }
        if n == 1 {
            return None;
        }
        match digits_to_u64(v, 1, 0x8000_0000) {
            Some(x) => Some((0 - (x as i64)) as i32),
            None => None,
        }
    } else {
        match parse_unsigned_chars(v, 0x7fff_ffff) {
            Some(x) => Some(x as i32),
            None => None,
        }
    }
}

/// The decimal digit character for `d < 10`.
pub open spec fn digit_char(d: nat) -> char {
    ((d + 48) as u32) as char
}

/// The decimal representation of `n`, without leading zeros.
pub open spec fn decimal(n: nat) -> Seq<char>
    decreases n,
{
    if n < 10 {
        seq![digit_char(n)]
    } else {
        decimal(n / 10).push(digit_char(n % 10))
    }
}

/// The decimal representation of a signed number (`-` before negative
/// ones), as `i32`'s `Display` writes it.
pub open spec fn signed_decimal(n: int) -> Seq<char> {
    if n < 0 {
        seq!['-'] + decimal((-n) as nat)
    } else {
        decimal(n as nat)
    }
}

/// The character of a decimal digit.
fn digit_to_char(d: u64) -> (c: char)
    requires
        d < 10,
    ensures
        c == digit_char(d as nat),
{
    match d {
        0 => '0',
        1 => '1',
        2 => '2',
        3 => '3',
        4 => '4',
        5 => '5',
        6 => '6',
        7 => '7',
        8 => '8',
        _ => '9',
    }
}

/// Appends the decimal representation of `n`.
pub fn push_decimal(s: &mut String, n: u64)
    ensures
        final(s)@ == old(s)@ + decimal(n as nat),
    decreases n,
{
    if n >= 10 {
        push_decimal(s, n / 10);
    }
    let c = digit_to_char(n % 10);
    string_push(s, c);
    proof {
        assert(final(s)@ =~= old(s)@ + decimal(n as nat)) by {
            if n < 10 {
                assert(n % 10 == n);
            }
        }
    }
}

/// A digit character is a digit with the right value.
pub proof fn lemma_digit_char_value(d: nat)
    requires
        d < 10,
    ensures
        is_digit(digit_char(d)),
        digit_value(digit_char(d)) == d,
        digit_char(d) != '+' && digit_char(d) != '-',
{
    assert(((d + 48) as u32) as char as u32 == d + 48);
}

/// Reading back a written decimal gives the number.
pub proof fn lemma_decimal_roundtrip(n: nat)
    ensures
        all_digits(decimal(n)),
        digits_value(decimal(n)) == n,
        decimal(n).len() > 0,
        decimal(n)[0] != '+' && decimal(n)[0] != '-',
    decreases n,
{
    lemma_digit_char_value(n % 10);
    if n < 10 {
        lemma_digit_char_value(n);
        assert(decimal(n).drop_last() =~= Seq::<char>::empty());
        assert(digits_value(Seq::<char>::empty()) == 0);
        assert(digits_value(decimal(n)) == n);
    }
    if n >= 10 {
        lemma_decimal_roundtrip(n / 10);
        let d = decimal(n / 10);
        assert((n / 10) * 10 + n % 10 == n);
        let dn = decimal(n);
        assert(dn == d.push(digit_char(n % 10)));
        assert(dn.len() > 0);
        assert(dn.drop_last() =~= d);
        assert(dn.last() == digit_char(n % 10));
        assert(digits_value(dn) == digits_value(dn.drop_last()) * 10 + digit_value(dn.last()));
        assert(decimal(n).drop_last() =~= d);
        assert(decimal(n)[0] == d[0]);
        assert forall|i: int| 0 <= i < decimal(n).len() implies is_digit(#[trigger] decimal(n)[i]) by {
            if i < d.len() {
                assert(decimal(n)[i] == d[i]);
            }
        }
    }
}

/// Parsing the decimal form of `n` gives `n` back.
pub proof fn lemma_parse_decimal(n: nat, max: nat)
    requires
        n <= max,
    ensures
        parse_unsigned(decimal(n), max) == Some(n),
{
    lemma_decimal_roundtrip(n);
}

/// Appends the decimal representation of a signed number, as `i32`'s
/// `Display` writes it.
pub fn push_signed_decimal(s: &mut String, n: i32)
    ensures
        final(s)@ == old(s)@ + signed_decimal(n as int),
{
    if n < 0 {
        string_push(s, '-');
        let m: i64 = 0 - (n as i64);
        push_decimal(s, m as u64);
        proof {
            assert(final(s)@ =~= old(s)@ + signed_decimal(n as int));
        }
    } else {
        push_decimal(s, n as u64);
    }
}

/// Parsing the decimal form of an `i32` gives it back.
pub proof fn lemma_parse_signed_decimal(n: i32)
    ensures
        parse_i32_spec(signed_decimal(n as int)) == Some(n as int),
{
    if n < 0 {
        let m: nat = (-(n as int)) as nat;
        lemma_decimal_roundtrip(m);
        let s = signed_decimal(n as int);
        assert(s.drop_first() =~= decimal(m));
    } else {
        lemma_decimal_roundtrip(n as nat);
        lemma_parse_decimal(n as nat, 0x7fff_ffff);
    }
}

/// Decimal digits and the minus sign are not whitespace.
pub proof fn lemma_signed_decimal_plain(n: int)
    ensures
        trim(signed_decimal(n)) == signed_decimal(n),
        signed_decimal(n).len() > 0,
        forall|i: int|
            0 <= i < signed_decimal(n).len() ==> #[trigger] signed_decimal(n)[i] != '\n' && !is_ws(
                signed_decimal(n)[i],
            ),
{
    let m: nat = if n < 0 {
        (-n) as nat
    } else {
        n as nat
    };
    lemma_decimal_roundtrip(m);
    let s = signed_decimal(n);
    assert forall|i: int| 0 <= i < s.len() implies !is_ws(#[trigger] s[i]) && s[i] != '\n' by {
        if n < 0 {
            if i > 0 {
                assert(s[i] == decimal(m)[i - 1]);
                assert(is_digit(decimal(m)[i - 1]));
            }
        } else {
            assert(is_digit(decimal(m)[i]));
        }
    }
    assert(!is_ws(s[0]));
    assert(!is_ws(s[s.len() - 1]));
    lemma_trim_plain(s);
}

/// Appends the characters of `lit` (`String::push_str`).
pub fn push_str(s: &mut String, lit: &str)
    ensures
        final(s)@ == old(s)@ + lit@,
{
    let v = str_chars(lit);
    let ghost start = s@;
    let n = v.len();
    let mut i: usize = 0;
    while i < n
        invariant
            i <= n,
            n == v@.len(),
            v@ == lit@,
            s@ == start + v@.take(i as int),
        decreases n - i,
    {
        string_push(s, v[i]);
        proof {
            assert(s@ =~= start + v@.take(i + 1));
        }
        i = i + 1;
    }
    proof {
        assert(v@.take(n as int) =~= v@);
    }
}

/// `prefix` followed by `s`.
pub fn prefixed(prefix: &str, s: &str) -> (r: String)
    ensures
        r@ == prefix@ + s@,
{
    let mut r = String::new();
    push_str(&mut r, prefix);
    push_str(&mut r, s);
    proof {
        assert(r@ =~= prefix@ + s@);
    }
    r
}

} // verus!

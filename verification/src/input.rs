//! Input mode handling: the current input mode (normal, command,
//! search) and the text buffer for command and search entry.

use vstd::prelude::*;
use crate::text::{chars_to_string, str_chars};

verus! {

/// Current input mode of the application.
#[derive(Debug, Clone, Copy, PartialEq, Eq, Structural)]
pub enum InputMode {
    /// Normal mode - keyboard shortcuts active.
    Normal,
    /// Command mode - typing a slash command.
    Command,
    /// Search/filter mode - typing search term.
    Search,
}

impl Default for InputMode {
    fn default() -> (r: Self)
        ensures
            r == InputMode::Normal,
    {
        InputMode::Normal
    }
}

/// Number of bytes the UTF-8 encoding of `c` takes (`char::len_utf8`).
pub open spec fn utf8_width(c: char) -> nat {
    let u = c as u32;
    if u < 0x80 {
        1
    } else if u < 0x800 {
        2
    } else if u < 0x10000 {
        3
    } else {
        4
    }
}

/// Number of bytes the UTF-8 encoding of `s` takes.
pub open spec fn utf8_len(s: Seq<char>) -> nat
    decreases s.len(),
{
    if s.len() == 0 {
        0
    } else {
        utf8_len(s.drop_last()) + utf8_width(s.last())
    }
}

/// The UTF-8 length of a prefix grows with the prefix.
pub proof fn lemma_utf8_len_prefix(s: Seq<char>, i: int)
    requires
        0 <= i <= s.len(),
    ensures
        utf8_len(s.take(i)) <= utf8_len(s),
    decreases s.len() - i,
{
    if i < s.len() {
        lemma_utf8_len_prefix(s, i + 1);
        assert(s.take(i + 1).drop_last() =~= s.take(i));
    } else {
        assert(s.take(i) =~= s);
    }
}

/// Number of bytes of `c` in UTF-8.
fn char_utf8_width(c: char) -> (r: usize)
    ensures
        r == utf8_width(c),
{
    let u = c as u32;
    if u < 0x80 {
        1
    } else if u < 0x800 {
        2
    } else if u < 0x10000 {
        3
    } else {
        4
    }
}

/// The abstract state of an [`InputBuffer`]: its text, and the cursor
/// as a character position.
pub struct InputBufferView {
    pub content: Seq<char>,
    pub cursor: nat,
}

impl InputBufferView {
    /// The state after typing `c` at the cursor.
    pub open spec fn inserted(self, c: char) -> InputBufferView {
        InputBufferView { content: self.content.insert(self.cursor as int, c), cursor: self.cursor + 1 }
    }

    /// The state after deleting the character before the cursor; at the
    /// start of the text nothing changes.
    pub open spec fn backspaced(self) -> InputBufferView {
        if self.cursor > 0 {
            InputBufferView {
                content: self.content.remove(self.cursor - 1),
                cursor: (self.cursor - 1) as nat,
            }
        } else {
            self
        }
    }

    /// The state after typing the characters of `s` one by one.
    pub open spec fn inserted_each(self, s: Seq<char>) -> InputBufferView
        decreases s.len(),
    {
        if s.len() == 0 {
            self
        } else {
            self.inserted(s[0]).inserted_each(s.drop_first())
        }
    }
}

/// Input buffer for command/search text entry.
pub struct InputBuffer {
    chars: Vec<char>,
    text: String,
    cursor: usize,
}

impl View for InputBuffer {
    type V = InputBufferView;

    closed spec fn view(&self) -> InputBufferView {
        InputBufferView { content: self.chars@, cursor: self.cursor as nat }
    }
}

impl InputBuffer {
    /// The cursor stays within the text, the text's UTF-8 form fits in
    /// memory.
    pub closed spec fn wf(&self) -> bool {
        &&& self.cursor <= self.chars@.len()
        &&& self.text@ == self.chars@
        &&& utf8_len(self.chars@) <= isize::MAX
    }

    /// A well-formed buffer has its cursor within its text.
    pub proof fn lemma_cursor_in_text(&self)
        requires
            self.wf(),
        ensures
            self@.cursor <= self@.content.len(),
            utf8_len(self@.content) <= isize::MAX,
    {
    }

    /// Rebuilds the string form after the characters changed.
    fn sync(&mut self)
        requires
            old(self).cursor <= old(self).chars@.len(),
            utf8_len(old(self).chars@) <= isize::MAX,
        ensures
            final(self).wf(),
            final(self)@ == old(self)@,
    {
        self.text = chars_to_string(&self.chars);
    }

    /// Creates a new empty input buffer.
    pub fn new() -> (r: Self)
        ensures
            r.wf(),
            r@.content == Seq::<char>::empty(),
            r@.cursor == 0,
    {
        InputBuffer { chars: Vec::new(), text: String::new(), cursor: 0 }
    }

    /// Inserts a character at the cursor position and moves past it.
    pub fn insert(&mut self, c: char)
        requires
            old(self).wf(),
            utf8_len(old(self)@.content) + utf8_width(c) <= isize::MAX,
        ensures
            final(self).wf(),
            final(self)@.content == old(self)@.content.insert(old(self)@.cursor as int, c),
            final(self)@.cursor == old(self)@.cursor + 1,
            final(self)@ == old(self)@.inserted(c),
    {
        proof {
            lemma_utf8_len_insert(self.chars@, self.cursor as int, c);
            lemma_utf8_len_ge_len(self.chars@.insert(self.cursor as int, c));
        }
        self.chars.insert(self.cursor, c);
        self.cursor = self.cursor + 1;
        self.sync();
    }

    /// Deletes the character before the cursor.
    pub fn backspace(&mut self)
        requires
            old(self).wf(),
        ensures
            final(self).wf(),
            old(self)@.cursor > 0 ==> final(self)@.content == old(self)@.content.remove(
                old(self)@.cursor - 1,
            ) && final(self)@.cursor == old(self)@.cursor - 1,
            old(self)@.cursor == 0 ==> final(self)@ == old(self)@,
            final(self)@ == old(self)@.backspaced(),
    {
        if self.cursor > 0 {
            proof {
                lemma_utf8_len_remove(self.chars@, self.cursor - 1);
            }
            self.chars.remove(self.cursor - 1);
            self.cursor = self.cursor - 1;
            self.sync();
        }
    }

    /// Deletes the character at the cursor position.
    pub fn delete(&mut self)
        requires
            old(self).wf(),
        ensures
            final(self).wf(),
            old(self)@.cursor < old(self)@.content.len() ==> final(self)@.content == old(
                self,
            )@.content.remove(old(self)@.cursor as int) && final(self)@.cursor == old(self)@.cursor,
            old(self)@.cursor >= old(self)@.content.len() ==> final(self)@ == old(self)@,
    {
        if self.cursor < self.chars.len() {
            proof {
                lemma_utf8_len_remove(self.chars@, self.cursor as int);
            }
            self.chars.remove(self.cursor);
            self.sync();
        }
    }

    /// Clears the buffer.
    pub fn clear(&mut self)
        requires
            old(self).wf(),
        ensures
            final(self).wf(),
            final(self)@.content == Seq::<char>::empty(),
            final(self)@.cursor == 0,
    {
        self.chars.clear();
        self.text = String::new();
        self.cursor = 0;
    }

    /// Gets the current content.
    pub fn content(&self) -> (r: &str)
        requires
            self.wf(),
        ensures
            r@ == self@.content,
    {
        self.text.as_str()
    }

    /// Gets the cursor position as a byte offset into the UTF-8 text.
    pub fn cursor(&self) -> (r: usize)
        requires
            self.wf(),
        ensures
            r == utf8_len(self@.content.take(self@.cursor as int)),
    {
        let mut bytes: usize = 0;
        let mut i: usize = 0;
        proof {
            assert(self.chars@.take(0) =~= Seq::<char>::empty());
        }
        while i < self.cursor
            invariant
                i <= self.cursor <= self.chars@.len(),
                bytes == utf8_len(self.chars@.take(i as int)),
                utf8_len(self.chars@) <= isize::MAX,
            decreases self.cursor - i,
        {
            proof {
                assert(self.chars@.take(i + 1).drop_last() =~= self.chars@.take(i as int));
                lemma_utf8_len_prefix(self.chars@, i + 1);
            }
            bytes = bytes + char_utf8_width(self.chars[i]);
            i = i + 1;
        }
        bytes
    }

    /// Gets the cursor position as a character count (for display).
    pub fn cursor_char_pos(&self) -> (r: usize)
        ensures
            r == self@.cursor,
    {
        self.cursor
    }

    /// Moves the cursor left by one character.
    pub fn move_left(&mut self)
        requires
            old(self).wf(),
        ensures
            final(self).wf(),
            final(self)@.content == old(self)@.content,
            final(self)@.cursor == if old(self)@.cursor > 0 {
                (old(self)@.cursor - 1) as nat
            } else {
                0
            },
    {
        if self.cursor > 0 {
            self.cursor = self.cursor - 1;
        }
    }

    /// Moves the cursor right by one character.
    pub fn move_right(&mut self)
        requires
            old(self).wf(),
        ensures
            final(self).wf(),
            final(self)@.content == old(self)@.content,
            final(self)@.cursor == if old(self)@.cursor < old(self)@.content.len() {
                old(self)@.cursor + 1
            } else {
                old(self)@.cursor
            },
    {
        if self.cursor < self.chars.len() {
            self.cursor = self.cursor + 1;
        }
    }

    /// Moves the cursor to the beginning.
    pub fn move_home(&mut self)
        requires
            old(self).wf(),
        ensures
            final(self).wf(),
            final(self)@.content == old(self)@.content,
            final(self)@.cursor == 0,
    {
        self.cursor = 0;
    }

    /// Moves the cursor to the end.
    pub fn move_end(&mut self)
        requires
            old(self).wf(),
        ensures
            final(self).wf(),
            final(self)@.content == old(self)@.content,
            final(self)@.cursor == old(self)@.content.len(),
    {
        self.cursor = self.chars.len();
    }

    /// Returns true if the buffer is empty.
    pub fn is_empty(&self) -> (r: bool)
        ensures
            r == (self@.content.len() == 0),
    {
        self.chars.len() == 0
    }

    /// Returns true if the cursor is at the end of the content.
    pub fn cursor_at_end(&self) -> (r: bool)
        ensures
            r == (self@.cursor >= self@.content.len()),
    {
        self.cursor >= self.chars.len()
    }

    /// Inserts a string at the cursor position and moves past it.
    pub fn insert_str(&mut self, s: &str)
        requires
            old(self).wf(),
            utf8_len(old(self)@.content) + utf8_len(s@) <= isize::MAX,
        ensures
            final(self).wf(),
            final(self)@.content == old(self)@.content.take(old(self)@.cursor as int) + s@
                + old(self)@.content.skip(old(self)@.cursor as int),
            final(self)@.cursor == old(self)@.cursor + s@.len(),
            final(self)@ == old(self)@.inserted_each(s@),
    {
        proof {
            law_insert_str_is_insert_each(self@, s@);
        }
        let v = str_chars(s);
        let n = v.len();
        let ghost c0 = self.cursor as int;
        let ghost old_content = self.chars@;
        let mut i: usize = 0;
        proof {
            assert(v@.take(0) =~= Seq::<char>::empty());
            assert(old_content.take(c0) + v@.take(0) + old_content.skip(c0) =~= old_content);
        }
        while i < n
            invariant
                i <= n,
                n == v@.len(),
                v@ == s@,
                self.cursor == c0 + i,
                0 <= c0 <= old_content.len(),
                self.chars@ == old_content.take(c0) + v@.take(i as int) + old_content.skip(c0),
                utf8_len(old_content) + utf8_len(v@) <= isize::MAX,
            decreases n - i,
        {
            proof {
                let cur = self.chars@;
                lemma_utf8_len_concat3(old_content.take(c0), v@.take(i as int), old_content.skip(c0));
                lemma_utf8_len_concat3(old_content.take(c0), v@.take(i + 1), old_content.skip(c0));
                assert(old_content.take(c0) + old_content.skip(c0) =~= old_content);
                lemma_utf8_len_concat(old_content.take(c0), old_content.skip(c0));
                assert(v@.take(i + 1).drop_last() =~= v@.take(i as int));
                lemma_utf8_len_prefix(v@, i + 1);
                lemma_utf8_len_insert(cur, self.cursor as int, v[i as int]);
                lemma_utf8_len_ge_len(cur.insert(self.cursor as int, v[i as int]));
            }
            self.chars.insert(self.cursor, v[i]);
            self.cursor = self.cursor + 1;
            proof {
                assert(self.chars@ =~= old_content.take(c0) + v@.take(i + 1) + old_content.skip(c0));
            }
            i = i + 1;
        }
        proof {
            assert(v@.take(n as int) =~= v@);
            lemma_utf8_len_concat3(old_content.take(c0), v@, old_content.skip(c0));
            assert(old_content.take(c0) + old_content.skip(c0) =~= old_content);
            lemma_utf8_len_concat(old_content.take(c0), old_content.skip(c0));
        }
        self.sync();
    }
}

/// Backspace undoes typing: after a character, whatever its UTF-8 width,
/// is typed at the cursor, deleting before the cursor gives back the text
/// and the cursor as they were.
pub proof fn law_backspace_undoes_insert(v: InputBufferView, c: char)
    requires
        v.cursor <= v.content.len(),
    ensures
        v.inserted(c).backspaced() == v,
{
    assert(v.content.insert(v.cursor as int, c).remove(v.cursor as int) =~= v.content);
}

/// Inserting a string is typing its characters one by one: both put the
/// string at the cursor and move the cursor past it.
pub proof fn law_insert_str_is_insert_each(v: InputBufferView, s: Seq<char>)
    requires
        v.cursor <= v.content.len(),
    ensures
        v.inserted_each(s) == (InputBufferView {
            content: v.content.take(v.cursor as int) + s + v.content.skip(v.cursor as int),
            cursor: v.cursor + s.len(),
        }),
    decreases s.len(),
{
    let k = v.cursor as int;
    if s.len() == 0 {
        assert(v.content.take(k) + s + v.content.skip(k) =~= v.content);
    } else {
        let w = v.inserted(s[0]);
        law_insert_str_is_insert_each(w, s.drop_first());
        assert(w.content.take(k + 1) =~= v.content.take(k).push(s[0]));
        assert(w.content.skip(k + 1) =~= v.content.skip(k));
        assert(w.content.take(k + 1) + s.drop_first() + w.content.skip(k + 1) =~= v.content.take(k)
            + s + v.content.skip(k));
    }
}

/// Every character takes at least one byte.
pub proof fn lemma_utf8_len_ge_len(s: Seq<char>)
    ensures
        utf8_len(s) >= s.len(),
    decreases s.len(),
{
    if s.len() > 0 {
        lemma_utf8_len_ge_len(s.drop_last());
    }
}

/// The UTF-8 length of a concatenation.
pub proof fn lemma_utf8_len_concat(a: Seq<char>, b: Seq<char>)
    ensures
        utf8_len(a + b) == utf8_len(a) + utf8_len(b),
    decreases b.len(),
{
    if b.len() > 0 {
        lemma_utf8_len_concat(a, b.drop_last());
        assert((a + b).drop_last() =~= a + b.drop_last());
    } else {
        assert(a + b =~= a);
    }
}

/// The UTF-8 length of a three-part concatenation.
pub proof fn lemma_utf8_len_concat3(a: Seq<char>, b: Seq<char>, c: Seq<char>)
    ensures
        utf8_len(a + b + c) == utf8_len(a) + utf8_len(b) + utf8_len(c),
{
    lemma_utf8_len_concat(a, b);
    lemma_utf8_len_concat(a + b, c);
}

/// Inserting a character adds its width.
pub proof fn lemma_utf8_len_insert(s: Seq<char>, i: int, c: char)
    requires
        0 <= i <= s.len(),
    ensures
        utf8_len(s.insert(i, c)) == utf8_len(s) + utf8_width(c),
{
    assert(s.insert(i, c) =~= s.take(i) + seq![c] + s.skip(i));
    assert(s =~= s.take(i) + s.skip(i));
    lemma_utf8_len_concat3(s.take(i), seq![c], s.skip(i));
    lemma_utf8_len_concat(s.take(i), s.skip(i));
    assert(seq![c].drop_last() =~= Seq::<char>::empty());
    assert(utf8_len(Seq::<char>::empty()) == 0);
}

/// Removing a character takes away its width.
pub proof fn lemma_utf8_len_remove(s: Seq<char>, i: int)
    requires
        0 <= i < s.len(),
    ensures
        utf8_len(s.remove(i)) + utf8_width(s[i]) == utf8_len(s),
{
    lemma_utf8_len_insert(s.remove(i), i, s[i]);
    assert(s.remove(i).insert(i, s[i]) =~= s);
}

} // verus!

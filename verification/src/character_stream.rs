use vstd::prelude::*;
use vstd::utf8::{
    encode_utf8, encode_utf8_valid_utf8, is_ascii_chars, is_ascii_chars_encode_utf8,
    is_char_boundary, is_char_boundary_iff_not_is_continuation_byte, is_continuation_byte,
};

verus! {

/// The state of a character stream: the text it reads, the index of the
/// character it stands on, the text's length in bytes and the current line.
pub struct CharStreamView {
    pub text: Seq<char>,
    pub idx: u32,
    pub len: usize,
    pub line: u32,
}

impl CharStreamView {
    /// More characters are available: the text is not empty, the stream
    /// does not stand on its last byte position, and the following index is a
    /// character boundary of the text's UTF-8 encoding.
    pub open spec fn more(self) -> bool {
        &&& self.len != 0
        &&& self.idx != self.len - 1
        &&& self.idx < self.len
        &&& is_char_boundary(encode_utf8(self.text), self.idx + 1)
    }

    /// `peek_next_char` finds the character it reports.
    pub open spec fn peek_next_safe(self) -> bool {
        self.more() ==> self.idx + 1 < self.text.len()
    }

    /// The character after the current one, if more are available.
    pub open spec fn peek_next(self) -> Option<char> {
        if self.more() {
            Some(self.text[self.idx + 1])
        } else {
            None
        }
    }

    /// The character `k + 1` places after the current one, if the text has it.
    pub open spec fn peek_ahead(self, k: int) -> Option<char> {
        if self.idx + 1 + k < self.text.len() {
            Some(self.text[self.idx + 1 + k])
        } else {
            None
        }
    }

    /// The character the stream stands on, if the text has it.
    pub open spec fn cur(self) -> Option<char> {
        if self.idx < self.text.len() {
            Some(self.text[self.idx as int])
        } else {
            None
        }
    }

    /// `get_next_char` finishes without an arithmetic failure and finds the
    /// character it reports.
    pub open spec fn next_safe(self) -> bool {
        self.more() ==> {
            &&& self.text[self.idx as int] == '\n' ==> self.line + 1 <= u32::MAX
            &&& self.idx + 1 < self.text.len()
            &&& self.idx + 1 <= u32::MAX
        }
    }

    /// The stream after consuming one character: the index moves on, and the
    /// line count grows when the character left behind is a newline.
    pub open spec fn advanced(self) -> CharStreamView {
        if self.more() {
            CharStreamView {
                idx: (self.idx + 1) as u32,
                line: if self.text[self.idx as int] == '\n' {
                    (self.line + 1) as u32
                } else {
                    self.line
                },
                ..self
            }
        } else {
            self
        }
    }
}

/// The number of newlines in `s`.
pub open spec fn newline_count(s: Seq<char>) -> nat
    decreases s.len(),
{
    if s.len() == 0 {
        0
    } else {
        newline_count(s.drop_last()) + if s.last() == '\n' {
            1nat
        } else {
            0nat
        }
    }
}

/// A cursor over the characters of a text.
pub struct CharStream {
    inp_str: String,
    cur_char_idx: u32,
    inp_str_len: usize,
    cur_line_no: u32,
}

impl View for CharStream {
    type V = CharStreamView;

    closed spec fn view(&self) -> CharStreamView {
        CharStreamView {
            text: self.inp_str@,
            idx: self.cur_char_idx,
            len: self.inp_str_len,
            line: self.cur_line_no,
        }
    }
}

impl CharStream {
    pub fn new(f: &str) -> (cs: CharStream)
        ensures
            cs@ == (CharStreamView {
                text: f@,
                idx: 0,
                len: encode_utf8(f@).len() as usize,
                line: 0,
            }),
    {
        CharStream {
            inp_str: f.to_owned(),
            cur_char_idx: 0,
            inp_str_len: f.len(),
            cur_line_no: 0,
        }
    }

    /// Returns true if more characters are available, false otherwise.
    pub fn more_available(&self) -> (r: bool)
        ensures
            r == self@.more(),
    {
        if self.inp_str_len == 0 {
            return false;
        }
        let i = self.cur_char_idx as usize;
        if i == self.inp_str_len - 1 || i >= self.inp_str_len {
            return false;
        }
        self.inp_str.as_str().is_char_boundary(i + 1)
    }

    /// Returns the next character without consuming it, or `None` when no
    /// more characters are available.
    pub fn peek_next_char(&self) -> (r: Option<char>)
        requires
            self@.peek_next_safe(),
        ensures
            r == self@.peek_next(),
    {
        if self.more_available() {
            let next_idx = self.cur_char_idx as usize + 1;
            Some(self.inp_str.as_str().get_char(next_idx))
        } else {
            None
        }
    }

    /// Returns the character `k + 1` places after the current one without
    /// consuming anything, or `None` when the text ends before it;
    /// `peek_ahead_char(0)` is the character after the current one.
    pub fn peek_ahead_char(&self, k: i32) -> (r: Option<char>)
        requires
            k >= 0,
        ensures
            r == self@.peek_ahead(k as int),
    {
        let n = self.inp_str.as_str().unicode_len();
        let i = self.cur_char_idx as usize;
        let k = k as usize;
        if i < n && k < n - i - 1 {
            Some(self.inp_str.as_str().get_char(i + 1 + k))
        } else {
            None
        }
    }

    /// Consumes the current character and returns the one after it, or
    /// `None` when no more characters are available.
    pub fn get_next_char(&mut self) -> (r: Option<char>)
        requires
            old(self)@.next_safe(),
        ensures
            final(self)@ == old(self)@.advanced(),
            r == old(self)@.peek_next(),
    {
        if self.more_available() {
            let c = self.get_cur_char();
            if c.unwrap() == '\n' {
                self.cur_line_no = self.cur_line_no + 1;
            }
            self.cur_char_idx = self.cur_char_idx + 1;
            Some(self.inp_str.as_str().get_char(self.cur_char_idx as usize))
        } else {
            None
        }
    }

    /// The character the index points to, or `None` when the index is past
    /// the end of the text.
    pub fn get_cur_char(&mut self) -> (r: Option<char>)
        ensures
            final(self)@ == old(self)@,
            r == old(self)@.cur(),
    {
        let i = self.cur_char_idx as usize;
        if i < self.inp_str.as_str().unicode_len() {
            Some(self.inp_str.as_str().get_char(i))
        } else {
            None
        }
    }

    pub fn get_idx(&self) -> (r: u32)
        ensures
            r == self@.idx,
    {
        self.cur_char_idx
    }

    pub fn get_line_no(&self) -> (r: u32)
        ensures
            r == self@.line,
    {
        self.cur_line_no
    }

    pub fn get_len(&self) -> (r: usize)
        ensures
            r == self@.len,
    {
        self.inp_str_len
    }
}

/// On an ASCII text whose recorded length is its length in bytes, looking
/// ahead by zero shows the same character as looking at the next one.
pub proof fn lemma_peek_ahead_zero_is_peek_next(cs: CharStreamView)
    requires
        is_ascii_chars(cs.text),
        cs.len == encode_utf8(cs.text).len(),
    ensures
        cs.peek_ahead(0) == cs.peek_next(),
{
    let b = encode_utf8(cs.text);
    is_ascii_chars_encode_utf8(cs.text);
    encode_utf8_valid_utf8(cs.text);
    if cs.idx + 1 < cs.text.len() {
        let j = cs.idx + 1;
        assert(cs.text[j] as u8 == b[j]);
        assert('\0' <= cs.text[j] <= '\u{7f}');
        assert(!is_continuation_byte(b[j]));
        is_char_boundary_iff_not_is_continuation_byte(b, j);
    }
}

/// Consuming a character yields the character a peek showed, moves the
/// stream on by one and counts a line when a newline is left behind; with no
/// more characters available nothing moves.
pub proof fn lemma_next_is_peeked(cs: CharStreamView)
    requires
        cs.next_safe(),
    ensures
        cs.more() ==> cs.peek_next() == Some(cs.text[cs.idx + 1]) && cs.advanced().idx == cs.idx
            + 1 && cs.advanced().line == cs.line + if cs.text[cs.idx as int] == '\n' {
            1int
        } else {
            0int
        },
        !cs.more() ==> cs.peek_next() is None && cs.advanced() == cs,
{
}

/// The line count is the number of newlines before the index: it holds of a
/// new stream, and consuming a character keeps it, never moving the index
/// back.
pub proof fn lemma_line_counts_newlines(cs: CharStreamView)
    requires
        cs.line == newline_count(cs.text.take(cs.idx as int)),
        cs.idx <= cs.text.len(),
        cs.next_safe(),
    ensures
        newline_count(cs.text.take(0)) == 0,
        cs.advanced().idx >= cs.idx,
        cs.advanced().idx <= cs.advanced().text.len(),
        cs.advanced().line == newline_count(
            cs.advanced().text.take(cs.advanced().idx as int),
        ),
{
    assert(cs.text.take(0).len() == 0);
    if cs.more() {
        let t1 = cs.text.take(cs.idx + 1);
        assert(t1.drop_last() =~= cs.text.take(cs.idx as int));
        assert(t1.last() == cs.text[cs.idx as int]);
    }
}

/// On an ASCII text whose recorded length is its length, more characters
/// are available exactly when the index is before the last character.
pub proof fn lemma_ascii_more(cs: CharStreamView)
    requires
        is_ascii_chars(cs.text),
        cs.len == cs.text.len(),
        cs.len == encode_utf8(cs.text).len(),
    ensures
        cs.more() == (cs.idx + 1 < cs.text.len()),
{
    if cs.idx + 1 < cs.text.len() {
        let b = encode_utf8(cs.text);
        let j = cs.idx + 1;
        is_ascii_chars_encode_utf8(cs.text);
        encode_utf8_valid_utf8(cs.text);
        assert(cs.text[j] as u8 == b[j]);
        assert('\0' <= cs.text[j] <= '\u{7f}');
        assert(!is_continuation_byte(b[j]));
        is_char_boundary_iff_not_is_continuation_byte(b, j);
    }
}

/// A new stream over `text`, advanced `k` times: the stream after `k` calls
/// of `get_next_char` (no other call moves it).
pub open spec fn stream_after(text: Seq<char>, k: nat) -> CharStreamView
    decreases k,
{
    if k == 0 {
        CharStreamView { text, idx: 0, len: encode_utf8(text).len() as usize, line: 0 }
    } else {
        stream_after(text, (k - 1) as nat).advanced()
    }
}

proof fn lemma_newline_count_bound(s: Seq<char>)
    ensures
        newline_count(s) <= s.len(),
    decreases s.len(),
{
    if s.len() > 0 {
        lemma_newline_count_bound(s.drop_last());
    }
}

/// In every state of a stream over a non-empty ASCII text, the line number
/// is the number of newlines before the index, the index stays inside the
/// text and never moves back, and the next character can be asked for.
pub proof fn lemma_lines_counted(text: Seq<char>, k: nat)
    requires
        is_ascii_chars(text),
        0 < text.len() <= u32::MAX,
    ensures
        ({
            let c = stream_after(text, k);
            &&& c.text == text
            &&& c.len == text.len()
            &&& c.line == newline_count(text.take(c.idx as int))
            &&& c.idx < text.len()
            &&& k > 0 ==> c.idx >= stream_after(text, (k - 1) as nat).idx
            &&& c.next_safe()
            &&& c.peek_next_safe()
        }),
    decreases k,
{
    is_ascii_chars_encode_utf8(text);
    if k == 0 {
        assert(text.take(0) =~= Seq::<char>::empty());
    } else {
        lemma_lines_counted(text, (k - 1) as nat);
        let p = stream_after(text, (k - 1) as nat);
        lemma_line_counts_newlines(p);
    }
    let c = stream_after(text, k);
    lemma_newline_count_bound(text.take(c.idx as int));
}

} // verus!

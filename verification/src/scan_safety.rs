use vstd::prelude::*;
use vstd::utf8::{encode_utf8, is_ascii_chars, is_ascii_chars_encode_utf8};

use crate::character_stream::{lemma_ascii_more, CharStreamView};
use crate::scanner::{
    char_class, class_of, is_blank, skip_blanks, take_class, ScannerView,
};

verus! {

/// A text that can be read to its end without failure: ASCII, fewer than
/// `u32::MAX` characters, ending in a blank, with blanks continuing no
/// lexeme (their character class is 2).
pub open spec fn scannable(t: Seq<char>) -> bool {
    &&& is_ascii_chars(t)
    &&& 1 <= t.len() < u32::MAX
    &&& is_blank(t.last())
    &&& char_class(' ') == 2
    &&& char_class('\n') == 2
    &&& char_class('\t') == 2
}

/// The state of a new scanner over `t`.
pub open spec fn new_scanner_view(t: Seq<char>) -> ScannerView {
    ScannerView {
        cs: CharStreamView { text: t, idx: 0, len: encode_utf8(t).len() as usize, line: 0 },
        tokens: Seq::empty(),
        num_tokens: 0,
        cur: -1i32,
    }
}

/// A state met while reading a scannable text: the stream stays inside the
/// text, lines and tokens are bounded by the index, and the stream stands
/// either at the start, at the last character, or before a character that
/// is no blank.
pub open spec fn scan_state(s: ScannerView, t: Seq<char>) -> bool {
    &&& scannable(t)
    &&& s.cs.text == t
    &&& s.cs.len == t.len()
    &&& s.cs.idx < t.len()
    &&& s.cs.line <= s.cs.idx
    &&& s.num_tokens <= s.cs.idx + 1
    &&& s.num_tokens == 0 ==> s.cs.idx == 0
    &&& s.starting() || s.cs.idx + 1 == t.len() || !is_blank(t[s.cs.idx + 1])
}

proof fn lemma_more(cs: CharStreamView, t: Seq<char>)
    requires
        scannable(t),
        cs.text == t,
        cs.len == t.len(),
    ensures
        cs.more() == (cs.idx + 1 < t.len()),
{
    is_ascii_chars_encode_utf8(t);
    lemma_ascii_more(cs);
}

/// Taking the characters that continue a lexeme, from before the last
/// character of a scannable text, succeeds and stops before the last one.
proof fn lemma_take_class_safe(cs: CharStreamView, acc: Seq<char>, ident: bool, t: Seq<char>)
    requires
        scannable(t),
        cs.text == t,
        cs.len == t.len(),
        cs.idx + 1 < t.len(),
        cs.line <= cs.idx,
    ensures
        take_class(cs, acc, ident) is Some,
        ({
            let cs2 = take_class(cs, acc, ident).unwrap().0;
            &&& cs2.text == t
            &&& cs2.len == t.len()
            &&& cs.idx <= cs2.idx
            &&& cs2.idx + 1 < t.len()
            &&& cs2.line <= cs2.idx
        }),
    decreases t.len() - cs.idx,
{
    lemma_more(cs, t);
    let c = t[cs.idx + 1];
    if (ident && (char_class(c) == 0 || char_class(c) == 1)) || (!ident && char_class(c)
        == 1) {
        assert(!is_blank(c));
        assert(cs.idx + 2 < t.len());
        lemma_take_class_safe(cs.advanced(), acc.push(c), ident, t);
    }
}

/// Skipping blanks, from before the last character of a scannable text,
/// succeeds and stops at the last character or before one that is no blank.
proof fn lemma_skip_blanks_safe(cs: CharStreamView, t: Seq<char>)
    requires
        scannable(t),
        cs.text == t,
        cs.len == t.len(),
        cs.idx + 1 < t.len(),
        cs.line <= cs.idx,
    ensures
        skip_blanks(cs) is Some,
        ({
            let cs2 = skip_blanks(cs).unwrap().0;
            &&& cs2.text == t
            &&& cs2.len == t.len()
            &&& cs.idx <= cs2.idx < t.len()
            &&& cs2.line <= cs2.idx
            &&& cs2.idx + 1 == t.len() || !is_blank(t[cs2.idx + 1])
        }),
    decreases t.len() - cs.idx,
{
    lemma_more(cs, t);
    let n = t[cs.idx + 1];
    if is_blank(n) {
        let cs1 = cs.advanced();
        if cs1.idx != cs1.len - 1 {
            lemma_skip_blanks_safe(cs1, t);
        }
    }
}

/// Reading one lexeme in a scan state with more characters available
/// succeeds, records one token, and stops before the last character; past
/// the start it moves the stream on.
proof fn lemma_lexed_safe(s: ScannerView, t: Seq<char>)
    requires
        scan_state(s, t),
        s.cs.idx + 1 < t.len(),
    ensures
        s.lexed() is Some,
        ({
            let s1 = s.lexed().unwrap();
            &&& s1.cs.text == t
            &&& s1.cs.len == t.len()
            &&& s1.cs.idx + 1 < t.len()
            &&& s1.cs.line <= s1.cs.idx
            &&& s1.num_tokens == s.num_tokens + 1
            &&& s1.num_tokens <= s1.cs.idx + 1
            &&& s.cs.idx <= s1.cs.idx
            &&& !s.starting() ==> s.cs.idx < s1.cs.idx
        }),
{
    let cs = s.cs;
    lemma_more(cs, t);
    let (cs1, c0) = if s.starting() {
        (cs, t[0])
    } else {
        assert(!is_blank(t[cs.idx + 1]));
        assert(cs.idx + 2 < t.len());
        (cs.advanced(), t[cs.idx + 1])
    };
    assert(cs1.idx + 1 < t.len());
    let class = char_class(c0);
    if class == 0 {
        lemma_take_class_safe(cs1, seq![c0], true, t);
    } else if class == 1 || class == 3 {
        lemma_take_class_safe(cs1, seq![c0], false, t);
        let cs2 = take_class(cs1, seq![c0], false).unwrap().0;
        lemma_more(cs2, t);
        if t[cs2.idx + 1] == '.' {
            assert(!is_blank('.'));
            assert(cs2.idx + 2 < t.len());
            let lex = take_class(cs1, seq![c0], false).unwrap().1;
            lemma_take_class_safe(cs2.advanced(), lex.push('.'), false, t);
        }
    } else {
        lemma_more(cs1, t);
        if t[cs1.idx + 1] == '=' {
            assert(!is_blank('='));
            assert(cs1.idx + 2 < t.len());
        }
    }
}

proof fn lemma_scanned_safe(s: ScannerView, t: Seq<char>)
    requires
        scan_state(s, t),
    ensures
        s.scanned() is Some,
        s.scanned().unwrap().num_tokens <= t.len(),
    decreases s.scan_measure(),
{
    lemma_more(s.cs, t);
    if s.cs.more() {
        lemma_lexed_safe(s, t);
        let s1 = s.lexed().unwrap();
        lemma_skip_blanks_safe(s1.cs, t);
        let s2 = s1.blanks_skipped().unwrap();
        assert(scan_state(s2, t));
        assert(s2.scan_measure() < s.scan_measure());
        lemma_scanned_safe(s2, t);
    }
}

/// Reading a scannable text to its end never fails: a new scanner over it
/// can be run through `scan_all`, and makes at most one token per character.
pub proof fn lemma_scan_never_fails(t: Seq<char>)
    requires
        scannable(t),
    ensures
        new_scanner_view(t).scanned() is Some,
        new_scanner_view(t).scanned().unwrap().num_tokens <= t.len(),
{
    is_ascii_chars_encode_utf8(t);
    lemma_scanned_safe(new_scanner_view(t), t);
}

/// Whether a text is scannable, tested at run time.
pub fn is_scannable(text: &str) -> (r: bool)
    ensures
        r == scannable(text@),
{
    let n = text.unicode_len();
    if n == 0 || n >= 4294967295usize {
        return false;
    }
    let mut i: usize = 0;
    while i < n
        invariant
            n == text@.len(),
            0 <= i <= n,
            forall|j: int| 0 <= j < i ==> '\0' <= #[trigger] text@[j] <= '\u{7f}',
        decreases n - i,
    {
        let c = text.get_char(i);
        if c > '\u{7f}' {
            return false;
        }
        i += 1;
    }
    let last = text.get_char(n - 1);
    if !(last == ' ' || last == '\n' || last == '\t') {
        return false;
    }
    class_of(' ') == 2 && class_of('\n') == 2 && class_of('\t') == 2
}

} // verus!

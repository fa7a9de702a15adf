use vstd::prelude::*;
use vstd::utf8::encode_utf8;

use crate::character_stream::{CharStream, CharStreamView};
use crate::text::str_eq;
use crate::token::{Token, TokenType, TokenView};

verus! {

/// What `char::is_alphabetic` returns for a character (the Unicode
/// `Alphabetic` property).
pub uninterp spec fn char_alphabetic(c: char) -> bool;

/// What `char::is_numeric` returns for a character (the Unicode general
/// categories `Nd`, `Nl` and `No`).
pub uninterp spec fn char_numeric(c: char) -> bool;

/// Calls `char::is_alphabetic`; its result is named `char_alphabetic(c)`.
/// Of an ASCII character it is claimed, as the Unicode `Alphabetic` property
/// gives it, that exactly the letters `a`-`z` and `A`-`Z` are alphabetic.
#[verifier::external_body]
fn is_alphabetic(c: char) -> (r: bool)
    ensures
        r == char_alphabetic(c),
        c <= '\u{7f}' ==> r == (('a' <= c && c <= 'z') || ('A' <= c && c <= 'Z')),
{
    c.is_alphabetic()
}

/// Calls `char::is_numeric`; its result is named `char_numeric(c)`. Of an
/// ASCII character it is claimed, as the Unicode number categories give it,
/// that exactly the digits `0`-`9` are numeric.
#[verifier::external_body]
fn is_numeric(c: char) -> (r: bool)
    ensures
        r == char_numeric(c),
        c <= '\u{7f}' ==> r == ('0' <= c && c <= '9'),
{
    c.is_numeric()
}

/// `String::push` appends one character to the string's contents.
pub assume_specification[ String::push ](s: &mut String, ch: char)
    ensures
        final(s)@ == old(s)@.push(ch),
;

/// The character class that decides how a lexeme continues: 0 for letters
/// and `_`, 1 for numerals, 3 for `-`, 2 for everything else.
pub open spec fn char_class(c: char) -> u32 {
    if char_alphabetic(c) || c == '_' {
        0
    } else if char_numeric(c) {
        1
    } else if c == '-' {
        3
    } else {
        2
    }
}

/// The reserved words of the language.
pub open spec fn is_keyword_text(s: Seq<char>) -> bool {
    ||| s == "unsigned"@
    ||| s == "char"@
    ||| s == "short"@
    ||| s == "int"@
    ||| s == "long"@
    ||| s == "float"@
    ||| s == "double"@
    ||| s == "while"@
    ||| s == "if"@
    ||| s == "return"@
    ||| s == "void"@
    ||| s == "main"@
}

/// The operators of the language.
pub open spec fn is_operator_text(s: Seq<char>) -> bool {
    ||| s == "("@
    ||| s == ","@
    ||| s == ")"@
    ||| s == "{"@
    ||| s == "}"@
    ||| s == "="@
    ||| s == "=="@
    ||| s == "<"@
    ||| s == ">"@
    ||| s == "<="@
    ||| s == ">="@
    ||| s == "!="@
    ||| s == "+"@
    ||| s == "-"@
    ||| s == "*"@
    ||| s == "/"@
    ||| s == ";"@
}

/// The fixed table of reserved lexemes: 0 for keywords, 1 for operators.
pub open spec fn lookup_code(s: Seq<char>) -> Option<i32> {
    if is_keyword_text(s) {
        Some(0i32)
    } else if is_operator_text(s) {
        Some(1i32)
    } else {
        None
    }
}

/// The token type that a numeric type code stands for.
pub open spec fn code_type(code: i32) -> TokenType {
    if code == 0 {
        TokenType::KEYWORD
    } else if code == 1 {
        TokenType::OPERATOR
    } else if code == 2 {
        TokenType::INTCONSTANT
    } else if code == 3 {
        TokenType::FLOATCONSTANT
    } else if code == 4 {
        TokenType::VARIABLE
    } else {
        TokenType::INVALID
    }
}

/// The type a lexeme gets: the table's entry when it is reserved, else the
/// type of the code the scanner proposed.
pub open spec fn lexeme_type(lex: Seq<char>, code: i32) -> TokenType {
    match lookup_code(lex) {
        Some(k) => code_type(k),
        None => code_type(code),
    }
}

pub open spec fn is_blank(c: char) -> bool {
    c == ' ' || c == '\n' || c == '\t'
}

/// Skips blanks after the current character. `None` when the stream would
/// fail (an absent character is unwrapped); otherwise the stream after the
/// skip and the character `get_non_blank` returns.
pub open spec fn skip_blanks(cs: CharStreamView) -> Option<(CharStreamView, char)>
    decreases cs.text.len() - cs.idx,
{
    if !cs.peek_next_safe() {
        None
    } else {
        match cs.peek_next() {
            None => None,
            Some(c) => if is_blank(c) {
                if !cs.next_safe() {
                    None
                } else {
                    let cs1 = cs.advanced();
                    if cs1.idx == cs1.len - 1 {
                        Some((cs1, ' '))
                    } else {
                        skip_blanks(cs1)
                    }
                }
            } else {
                match cs.cur() {
                    None => None,
                    Some(c0) => Some((cs, c0)),
                }
            },
        }
    }
}

/// Extends `acc` with the characters that follow while their class continues
/// the lexeme (`ident`: letters, `_` and numerals; otherwise numerals only).
pub open spec fn take_class(cs: CharStreamView, acc: Seq<char>, ident: bool) -> Option<
    (CharStreamView, Seq<char>),
>
    decreases cs.text.len() - cs.idx,
{
    if !cs.peek_next_safe() {
        None
    } else {
        match cs.peek_next() {
            None => None,
            Some(c) => if (ident && (char_class(c) == 0 || char_class(c) == 1)) || (!ident
                && char_class(c) == 1) {
                if !cs.next_safe() {
                    None
                } else {
                    take_class(cs.advanced(), acc.push(c), ident)
                }
            } else {
                Some((cs, acc))
            },
        }
    }
}

/// The state of a scanner: its character stream, the tokens not yet handed
/// out, how many tokens it has made and the index of the last one handed out.
pub struct ScannerView {
    pub cs: CharStreamView,
    pub tokens: Seq<TokenView>,
    pub num_tokens: u32,
    pub cur: i32,
}

impl ScannerView {
    /// The scanner after recording the lexeme `lex` with the proposed code;
    /// `None` when the token count would overflow.
    pub open spec fn with_token(self, lex: Seq<char>, code: i32) -> Option<ScannerView> {
        if self.num_tokens + 1 > u32::MAX {
            None
        } else {
            Some(
                ScannerView {
                    tokens: self.tokens.push(
                        TokenView {
                            text: lex,
                            token_type: lexeme_type(lex, code),
                            line_number: self.cs.line as i32,
                            char_pos: self.cs.idx as i32,
                        },
                    ),
                    num_tokens: (self.num_tokens + 1) as u32,
                    ..self
                },
            )
        }
    }

    /// No lexeme has been read yet: the first one starts at the character the
    /// stream stands on, every later one after it.
    pub open spec fn starting(self) -> bool {
        self.cs.idx == 0 && self.num_tokens == 0
    }

    /// What reading the whole text still has to cover: the characters after
    /// the index, and the first lexeme while none has been read.
    pub open spec fn scan_measure(self) -> int {
        self.cs.text.len() - self.cs.idx + if self.num_tokens == 0 {
            1int
        } else {
            0int
        }
    }

    /// The scanner after reading one lexeme; `None` when `lex` would fail.
    pub open spec fn lexed(self) -> Option<ScannerView> {
        let cs = self.cs;
        let first: Option<(CharStreamView, char)> = if self.starting() {
            match cs.cur() {
                Some(c) => Some((cs, c)),
                None => None,
            }
        } else {
            if !cs.next_safe() {
                None
            } else {
                match cs.peek_next() {
                    Some(c) => Some((cs.advanced(), c)),
                    None => None,
                }
            }
        };
        match first {
            None => None,
            Some((cs1, c0)) => {
                let class = char_class(c0);
                if class == 0 {
                    match take_class(cs1, seq![c0], true) {
                        None => None,
                        Some((cs2, lex)) => ScannerView { cs: cs2, ..self }.with_token(lex, 4),
                    }
                } else if class == 1 || class == 3 {
                    match take_class(cs1, seq![c0], false) {
                        None => None,
                        Some((cs2, lex)) => {
                            if !cs2.peek_next_safe() {
                                None
                            } else {
                                match cs2.peek_next() {
                                    None => None,
                                    Some(p) => if p == '.' {
                                        if !cs2.next_safe() {
                                            None
                                        } else {
                                            match take_class(cs2.advanced(), lex.push('.'), false) {
                                                None => None,
                                                Some((cs4, lex2)) => ScannerView {
                                                    cs: cs4,
                                                    ..self
                                                }.with_token(lex2, 3),
                                            }
                                        }
                                    } else {
                                        ScannerView { cs: cs2, ..self }.with_token(lex, 2)
                                    },
                                }
                            }
                        },
                    }
                } else if class == 2 {
                    if !cs1.peek_next_safe() {
                        None
                    } else {
                        match cs1.peek_next() {
                            None => None,
                            Some(p) => if p == '=' {
                                if !cs1.next_safe() {
                                    None
                                } else {
                                    ScannerView { cs: cs1.advanced(), ..self }.with_token(
                                        seq![c0, '='],
                                        -1i32,
                                    )
                                }
                            } else {
                                ScannerView { cs: cs1, ..self }.with_token(seq![c0], -1i32)
                            },
                        }
                    }
                } else {
                    Some(ScannerView { cs: cs1, ..self })
                }
            },
        }
    }

    /// The scanner after skipping blanks; `None` when `get_non_blank` would fail.
    pub open spec fn blanks_skipped(self) -> Option<ScannerView> {
        match skip_blanks(self.cs) {
            None => None,
            Some((cs1, _)) => Some(ScannerView { cs: cs1, ..self }),
        }
    }

    /// The scanner after reading the whole text: one lexeme and the blanks
    /// after it at a time, while more characters are available. `None` when
    /// a step fails.
    pub open spec fn scanned(self) -> Option<ScannerView>
        decreases self.scan_measure(),
    {
        if self.cs.idx > self.cs.text.len() {
            None
        } else if !self.cs.more() {
            Some(self)
        } else {
            match self.lexed() {
                None => None,
                Some(s1) => match s1.blanks_skipped() {
                    None => None,
                    Some(s2) => if s2.cs.text == self.cs.text && s2.cs.idx <= s2.cs.text.len()
                        && s2.scan_measure() < self.scan_measure() {
                        s2.scanned()
                    } else {
                        None
                    },
                },
            }
        }
    }

    pub open spec fn next_token_safe(self) -> bool {
        &&& self.cur < i32::MAX
        &&& self.cur + 1 >= 0
        &&& self.num_tokens > self.cur + 1 ==> self.tokens.len() >= 1
    }

    /// The scanner after handing out a token, and the token handed out.
    pub open spec fn next_token(self) -> (ScannerView, Option<TokenView>) {
        let c = (self.cur + 1) as i32;
        if self.num_tokens <= c {
            (ScannerView { cur: c, ..self }, None)
        } else {
            (ScannerView { cur: c, tokens: self.tokens.drop_first(), ..self }, Some(self.tokens[0]))
        }
    }

    pub open spec fn peek_token_safe(self, i: int) -> bool {
        &&& self.cur < i32::MAX
        &&& self.cur + 1 >= 0
        &&& self.num_tokens > self.cur + 1 ==> 0 <= i < self.tokens.len()
    }

    /// The text of the `i`-th token not yet handed out, while tokens remain.
    pub open spec fn peek_token(self, i: int) -> Option<Seq<char>> {
        if self.num_tokens <= self.cur + 1 {
            None
        } else {
            Some(self.tokens[i].text)
        }
    }
}

pub open spec fn token_views(v: Seq<Token>) -> Seq<TokenView> {
    v.map_values(|t: Token| t@)
}

pub open spec fn opt_token_view(t: Option<Token>) -> Option<TokenView> {
    match t {
        Some(t) => Some(t@),
        None => None,
    }
}

pub open spec fn opt_text_view(t: Option<String>) -> Option<Seq<char>> {
    match t {
        Some(t) => Some(t@),
        None => None,
    }
}

/// Splits a text into lexemes: identifiers and keywords, integer and
/// floating constants, operators.
pub struct Scanner {
    token_stream: Vec<Token>,
    num_tokens: u32,
    char_stream: CharStream,
    cur_token_num: i32,
}

impl View for Scanner {
    type V = ScannerView;

    closed spec fn view(&self) -> ScannerView {
        ScannerView {
            cs: self.char_stream@,
            tokens: token_views(self.token_stream@),
            num_tokens: self.num_tokens,
            cur: self.cur_token_num,
        }
    }
}

/// The character class of `c`, as `char_class` gives it.
pub fn class_of(c: char) -> (r: u32)
    ensures
        r == char_class(c),
        r <= 3,
{
    if is_alphabetic(c) || c == '_' {
        0
    } else if is_numeric(c) {
        1
    } else if c == '-' {
        3
    } else {
        2
    }
}

/// The table of reserved lexemes.
fn lookup(s: &str) -> (r: Option<i32>)
    ensures
        r == lookup_code(s@),
{
    if str_eq(s, "unsigned") || str_eq(s, "char") || str_eq(s, "short") || str_eq(s, "int")
        || str_eq(s, "long") || str_eq(s, "float") || str_eq(s, "double") || str_eq(s, "while")
        || str_eq(s, "if") || str_eq(s, "return") || str_eq(s, "void") || str_eq(s, "main") {
        Some(0)
    } else if str_eq(s, "(") || str_eq(s, ",") || str_eq(s, ")") || str_eq(s, "{") || str_eq(
        s,
        "}",
    ) || str_eq(s, "=") || str_eq(s, "==") || str_eq(s, "<") || str_eq(s, ">") || str_eq(s, "<=")
        || str_eq(s, ">=") || str_eq(s, "!=") || str_eq(s, "+") || str_eq(s, "-") || str_eq(s, "*")
        || str_eq(s, "/") || str_eq(s, ";") {
        Some(1)
    } else {
        None
    }
}

impl Scanner {
    /// A scanner over the given text, standing on its first character; the
    /// text must not be empty.
    pub fn new(f: &str) -> (s: Scanner)
        requires
            f@.len() > 0,
        ensures
            s@ == (ScannerView {
                cs: CharStreamView {
                    text: f@,
                    idx: 0,
                    len: encode_utf8(f@).len() as usize,
                    line: 0,
                },
                tokens: Seq::empty(),
                num_tokens: 0,
                cur: -1i32,
            }),
    {
        let token_vec: Vec<Token> = Vec::new();
        let new_char_stream = CharStream::new(f);
        let s = Scanner {
            token_stream: token_vec,
            num_tokens: 0,
            char_stream: new_char_stream,
            cur_token_num: -1,
        };
        assert(token_views(s.token_stream@) =~= Seq::<TokenView>::empty());
        s
    }

    pub fn check_more_available(&self) -> (r: bool)
        ensures
            r == self@.cs.more(),
    {
        self.char_stream.more_available()
    }

    pub fn get_class(&self, s: char) -> (r: u32)
        ensures
            r == char_class(s),
            r <= 3,
    {
        class_of(s)
    }

    /// Skips blanks (space, newline, tab) after the current character and
    /// returns the character the stream then stands on, or a space when the
    /// text ends in blanks.
    pub fn get_non_blank(&mut self) -> (r: char)
        requires
            skip_blanks(old(self)@.cs) is Some,
        ensures
            final(self)@ == old(self)@.blanks_skipped().unwrap(),
            r == skip_blanks(old(self)@.cs).unwrap().1,
    {
        loop
            invariant
                skip_blanks(self@.cs) is Some,
                skip_blanks(self@.cs) == skip_blanks(old(self)@.cs),
                self@.tokens == old(self)@.tokens,
                self@.num_tokens == old(self)@.num_tokens,
                self@.cur == old(self)@.cur,
            decreases self@.cs.text.len() - self@.cs.idx,
        {
            let c = self.char_stream.peek_next_char().unwrap();
            if !(c == ' ' || c == '\n' || c == '\t') {
                return self.char_stream.get_cur_char().unwrap();
            }
            self.char_stream.get_next_char();
            if self.char_stream.get_idx() as usize == self.char_stream.get_len() - 1 {
                return ' ';
            }
        }
    }

    /// Records a lexeme as a token at the current line and index; a reserved
    /// lexeme takes its type from the table, any other the type of `tt_int`.
    pub fn add_token(&mut self, lex_str: &String, tt_int: i32)
        requires
            old(self)@.with_token(lex_str@, tt_int) is Some,
        ensures
            final(self)@ == old(self)@.with_token(lex_str@, tt_int).unwrap(),
    {
        let mut tt_int = tt_int;
        let looked = lookup(lex_str.as_str());
        if let Some(k) = looked {
            tt_int = k;
        }
        let tt = if tt_int == 0 {
            TokenType::KEYWORD
        } else if tt_int == 1 {
            TokenType::OPERATOR
        } else if tt_int == 2 {
            TokenType::INTCONSTANT
        } else if tt_int == 3 {
            TokenType::FLOATCONSTANT
        } else if tt_int == 4 {
            TokenType::VARIABLE
        } else {
            TokenType::INVALID
        };
        let token = Token::new(
            lex_str.clone(),
            tt,
            self.char_stream.get_line_no() as i32,
            self.char_stream.get_idx() as i32,
        );
        self.token_stream.push(token);
        self.num_tokens = self.num_tokens + 1;
        proof {
            assert(token_views(self.token_stream@) =~= token_views(old(self).token_stream@).push(
                token@,
            ));
        }
    }

    /// Consumes the characters that continue the lexeme in `lex_str`.
    fn take_while_class(&mut self, lex_str: &mut String, ident: bool)
        requires
            take_class(old(self)@.cs, old(lex_str)@, ident) is Some,
        ensures
            (final(self)@.cs, final(lex_str)@) == take_class(
                old(self)@.cs,
                old(lex_str)@,
                ident,
            ).unwrap(),
            final(self)@.tokens == old(self)@.tokens,
            final(self)@.num_tokens == old(self)@.num_tokens,
            final(self)@.cur == old(self)@.cur,
    {
        loop
            invariant
                take_class(self@.cs, lex_str@, ident) is Some,
                take_class(self@.cs, lex_str@, ident) == take_class(
                    old(self)@.cs,
                    old(lex_str)@,
                    ident,
                ),
                self@.tokens == old(self)@.tokens,
                self@.num_tokens == old(self)@.num_tokens,
                self@.cur == old(self)@.cur,
            decreases self@.cs.text.len() - self@.cs.idx,
        {
            let c = self.char_stream.peek_next_char().unwrap();
            let class = self.get_class(c);
            if !((ident && (class == 0 || class == 1)) || (!ident && class == 1)) {
                return ;
            }
            let n = self.char_stream.get_next_char().unwrap();
            lex_str.push(n);
        }
    }

    /// Reads one lexeme starting at the current character (or at the next
    /// one once the stream has moved) and records it as a token.
    pub fn lex(&mut self)
        requires
            old(self)@.lexed() is Some,
        ensures
            final(self)@ == old(self)@.lexed().unwrap(),
    {
        let mut lex_str = String::new();
        if self.char_stream.get_idx() == 0 && self.num_tokens == 0 {
            lex_str.push(self.char_stream.get_cur_char().unwrap());
        } else {
            lex_str.push(self.char_stream.get_next_char().unwrap());
        }
        let first = lex_str.as_str().get_char(0);
        assert(lex_str@ =~= seq![first]);
        let first_char_class = self.get_class(first);
        match first_char_class {
            0 => {
                self.take_while_class(&mut lex_str, true);
                self.add_token(&lex_str, 4);
            },
            1 | 3 => {
                self.take_while_class(&mut lex_str, false);
                if self.char_stream.peek_next_char().unwrap() == '.' {
                    lex_str.push(self.char_stream.get_next_char().unwrap());
                    self.take_while_class(&mut lex_str, false);
                    self.add_token(&lex_str, 3);
                } else {
                    self.add_token(&lex_str, 2);
                }
            },
            2 => {
                if self.char_stream.peek_next_char().unwrap() == '=' {
                    lex_str.push(self.char_stream.get_next_char().unwrap());
                    assert(lex_str@ =~= seq![first, '=']);
                }
                self.add_token(&lex_str, -1);
            },
            _ => {},
        }
    }

    /// Reads the whole text: a lexeme, then the blanks after it, for as long
    /// as more characters are available.
    pub fn scan_all(&mut self)
        requires
            old(self)@.scanned() is Some,
        ensures
            final(self)@ == old(self)@.scanned().unwrap(),
    {
        loop
            invariant
                self@.scanned() is Some,
                self@.scanned() == old(self)@.scanned(),
            decreases self@.scan_measure(),
        {
            if !self.check_more_available() {
                return ;
            }
            self.lex();
            self.get_non_blank();
        }
    }

    pub fn get_num_tokens(&self) -> (r: u32)
        ensures
            r == self@.num_tokens,
    {
        self.num_tokens
    }

    pub fn get_cur_num_token(&self) -> (r: i32)
        ensures
            r == self@.cur,
    {
        self.cur_token_num
    }

    /// The tokens not yet handed out.
    pub fn tokens(&self) -> (r: &Vec<Token>)
        ensures
            token_views(r@) == self@.tokens,
    {
        &self.token_stream
    }

    /// Hands out the next token, or `None` once all have been handed out.
    pub fn get_next_token(&mut self) -> (r: Option<Token>)
        requires
            old(self)@.next_token_safe(),
        ensures
            final(self)@ == old(self)@.next_token().0,
            opt_token_view(r) == old(self)@.next_token().1,
    {
        self.cur_token_num = self.cur_token_num + 1;
        if self.num_tokens <= self.cur_token_num as u32 {
            None
        } else {
            let t = self.token_stream.remove(0);
            proof {
                assert(token_views(self.token_stream@) =~= token_views(
                    old(self).token_stream@,
                ).drop_first());
            }
            Some(t)
        }
    }

    /// The text of the `i`-th token not yet handed out (0 is the next one),
    /// or `None` once all have been handed out.
    pub fn peek_ahead_token(&mut self, i: usize) -> (r: Option<String>)
        requires
            old(self)@.peek_token_safe(i as int),
        ensures
            final(self)@ == old(self)@,
            opt_text_view(r) == old(self)@.peek_token(i as int),
    {
        if self.num_tokens <= (self.cur_token_num + 1) as u32 {
            None
        } else {
            Some(self.token_stream[i].get_text().to_owned())
        }
    }
}

/// Each lexing step records exactly one token, after those already made.
pub proof fn lemma_lex_adds_one_token(s: ScannerView)
    requires
        s.lexed() is Some,
    ensures
        s.lexed().unwrap().tokens.len() == s.tokens.len() + 1,
        s.lexed().unwrap().tokens.drop_last() == s.tokens,
        s.lexed().unwrap().num_tokens == s.num_tokens + 1,
        s.lexed().unwrap().cur == s.cur,
{
    let t = s.lexed().unwrap();
    assert(t.tokens.drop_last() =~= s.tokens);
}

/// Reading the whole text leaves no character unread, keeps the tokens made
/// before, and hands out none.
pub proof fn lemma_scanned_reads_all(s: ScannerView)
    requires
        s.scanned() is Some,
    ensures
        !s.scanned().unwrap().cs.more(),
        s.tokens.len() <= s.scanned().unwrap().tokens.len(),
        s.scanned().unwrap().tokens.subrange(0, s.tokens.len() as int) == s.tokens,
        s.scanned().unwrap().tokens.len() - s.tokens.len() == s.scanned().unwrap().num_tokens
            - s.num_tokens,
        s.scanned().unwrap().cur == s.cur,
    decreases s.scan_measure(),
{
    if s.cs.more() {
        let s1 = s.lexed().unwrap();
        lemma_lex_adds_one_token(s);
        let s2 = s1.blanks_skipped().unwrap();
        lemma_scanned_reads_all(s2);
        let t = s.scanned().unwrap();
        assert(t == s2.scanned().unwrap());
        assert(s2.tokens == s1.tokens);
        assert forall|i: int| 0 <= i < s.tokens.len() implies #[trigger] t.tokens[i]
            == s.tokens[i] by {
            assert(t.tokens.subrange(0, s2.tokens.len() as int)[i] == s2.tokens[i]);
            assert(s1.tokens.drop_last()[i] == s1.tokens[i]);
        }
        assert(t.tokens.subrange(0, s.tokens.len() as int) =~= s.tokens);
    } else {
        assert(s.tokens.subrange(0, s.tokens.len() as int) =~= s.tokens);
    }
}

/// The scanner after `k` tokens have been asked for.
pub open spec fn after_hand_outs(s: ScannerView, k: nat) -> ScannerView
    decreases k,
{
    if k == 0 {
        s
    } else {
        after_hand_outs(s, (k - 1) as nat).next_token().0
    }
}

/// The counter of handed-out tokens counts the requests: after `k` requests
/// it has grown by `k`, whether or not tokens remained, and the count of
/// tokens made is unchanged; a new scanner starts it at -1, so after `m`
/// requests it is `m - 1`.
pub proof fn lemma_hand_out_count(s: ScannerView, k: nat)
    requires
        s.cur + k <= i32::MAX,
    ensures
        after_hand_outs(s, k).cur == s.cur + k,
        after_hand_outs(s, k).num_tokens == s.num_tokens,
        after_hand_outs(s, k).cs == s.cs,
    decreases k,
{
    if k > 0 {
        lemma_hand_out_count(s, (k - 1) as nat);
    }
}

/// Tokens are handed out in the order they were made: the `k + 1`-th
/// request gives the `k`-th token while tokens remain and nothing after
/// that; each request raises the index by one and leaves the count alone.
pub proof fn lemma_hand_out_order(s: ScannerView, k: nat)
    requires
        s.cur >= -1,
        s.cur + 1 + s.tokens.len() == s.num_tokens,
        s.cur + k < i32::MAX,
    ensures
        after_hand_outs(s, k).cur == s.cur + k,
        after_hand_outs(s, k).num_tokens == s.num_tokens,
        after_hand_outs(s, k).tokens == if k <= s.tokens.len() {
            s.tokens.skip(k as int)
        } else {
            Seq::empty()
        },
        after_hand_outs(s, k).next_token().1 == if k < s.tokens.len() {
            Some(s.tokens[k as int])
        } else {
            None
        },
    decreases k,
{
    if k == 0 {
        assert(s.tokens.skip(0) =~= s.tokens);
    } else {
        lemma_hand_out_order(s, (k - 1) as nat);
        let a = after_hand_outs(s, (k - 1) as nat);
        if k <= s.tokens.len() {
            assert(a.tokens.drop_first() =~= s.tokens.skip(k as int));
        } else {
            assert(s.tokens.skip(s.tokens.len() as int) =~= Seq::<TokenView>::empty());
        }
    }
}

/// The reserved words of the language are recorded as keywords: whatever
/// type the scanner proposes for one of `unsigned`, `char`, `short`, `int`,
/// `long`, `float`, `double`, `while`, `if`, `return`, `void`, `main`, the
/// token it records is a `KEYWORD`, with that text.
pub proof fn lemma_reserved_words_are_keywords(s: ScannerView, w: Seq<char>, code: i32)
    requires
        w == "unsigned"@ || w == "char"@ || w == "short"@ || w == "int"@ || w == "long"@ || w
            == "float"@ || w == "double"@ || w == "while"@ || w == "if"@ || w == "return"@ || w
            == "void"@ || w == "main"@,
        s.with_token(w, code) is Some,
    ensures
        s.with_token(w, code).unwrap().tokens.last().token_type == TokenType::KEYWORD,
        s.with_token(w, code).unwrap().tokens.last().text == w,
        s.with_token(w, code).unwrap().tokens.drop_last() == s.tokens,
{
    let t = s.with_token(w, code).unwrap();
    assert(t.tokens.drop_last() =~= s.tokens);
}

/// The operators of the language are recorded as operators: whatever type
/// the scanner proposes for one of `(`, `,`, `)`, `{`, `}`, `=`, `==`, `<`,
/// `>`, `<=`, `>=`, `!=`, `+`, `-`, `*`, `/`, `;`, the token it records is an
/// `OPERATOR`.
pub proof fn lemma_operators_are_operators(s: ScannerView, w: Seq<char>, code: i32)
    requires
        w == "("@ || w == ","@ || w == ")"@ || w == "{"@ || w == "}"@ || w == "="@ || w == "=="@
            || w == "<"@ || w == ">"@ || w == "<="@ || w == ">="@ || w == "!="@ || w == "+"@ || w
            == "-"@ || w == "*"@ || w == "/"@ || w == ";"@,
        s.with_token(w, code) is Some,
    ensures
        s.with_token(w, code).unwrap().tokens.last().token_type == TokenType::OPERATOR,
{
    reveal_strlit("(");
    reveal_strlit(",");
    reveal_strlit(")");
    reveal_strlit("{");
    reveal_strlit("}");
    reveal_strlit("=");
    reveal_strlit("==");
    reveal_strlit("<");
    reveal_strlit(">");
    reveal_strlit("<=");
    reveal_strlit(">=");
    reveal_strlit("!=");
    reveal_strlit("+");
    reveal_strlit("-");
    reveal_strlit("*");
    reveal_strlit("/");
    reveal_strlit(";");
    reveal_strlit("unsigned");
    reveal_strlit("char");
    reveal_strlit("short");
    reveal_strlit("int");
    reveal_strlit("long");
    reveal_strlit("float");
    reveal_strlit("double");
    reveal_strlit("while");
    reveal_strlit("if");
    reveal_strlit("return");
    reveal_strlit("void");
    reveal_strlit("main");
    assert(w.len() <= 2);
    assert("unsigned"@.len() == 8);
    assert("char"@.len() == 4);
    assert("short"@.len() == 5);
    assert("int"@.len() == 3);
    assert("long"@.len() == 4);
    assert("float"@.len() == 5);
    assert("double"@.len() == 6);
    assert("while"@.len() == 5);
    assert("return"@.len() == 6);
    assert("void"@.len() == 4);
    assert("main"@.len() == 4);
    assert("if"@.len() == 2);
    assert("if"@[0] == 'i');
    assert(w.len() == 2 ==> w[0] != 'i');
    assert(!is_keyword_text(w));
}

/// The kind of each lexeme the scanner records, when it is not a reserved
/// word or operator: one starting with a letter or `_` is a `VARIABLE`; one
/// starting with a numeral or `-` is an `INTCONSTANT`, or a `FLOATCONSTANT`
/// when it holds a `.`; any other is `INVALID`. (For the `.` test, `.` is
/// taken to be in class 2, as for ASCII text.)
pub proof fn lemma_lexeme_kinds(s: ScannerView)
    requires
        s.lexed() is Some,
        char_class('.') == 2,
    ensures
        ({
            let t = s.lexed().unwrap().tokens.last();
            let c = char_class(t.text[0]);
            lookup_code(t.text) is None ==> {
                &&& c == 0 ==> t.token_type == TokenType::VARIABLE
                &&& (c == 1 || c == 3) ==> t.token_type == if t.text.contains('.') {
                    TokenType::FLOATCONSTANT
                } else {
                    TokenType::INTCONSTANT
                }
                &&& c == 2 ==> t.token_type == TokenType::INVALID
            }
        }),
{
    let cs = s.cs;
    let (cs1, c0) = if s.starting() {
        (cs, cs.cur().unwrap())
    } else {
        (cs.advanced(), cs.peek_next().unwrap())
    };
    let class = char_class(c0);
    if class == 0 {
        lemma_take_class_extends(cs1, seq![c0], true);
        let lex = take_class(cs1, seq![c0], true).unwrap().1;
        assert(lex[0] == lex.subrange(0, 1)[0]);
    } else if class == 1 || class == 3 {
        lemma_take_class_longest_run(cs1, seq![c0], false);
        let (cs2, lex) = take_class(cs1, seq![c0], false).unwrap();
        assert(lex[0] == c0);
        assert(!lex.contains('.')) by {
            if lex.contains('.') {
                let k = choose|k: int| 0 <= k < lex.len() && lex[k] == '.';
                if k > 0 {
                    assert(lex[k] == cs1.text[cs1.idx + k]);
                    assert(continues(cs1.text[cs1.idx + k], false));
                }
            }
        }
        if cs2.peek_next() == Some('.') {
            lemma_take_class_extends(cs2.advanced(), lex.push('.'), false);
            let lex2 = take_class(cs2.advanced(), lex.push('.'), false).unwrap().1;
            assert(lex2[0] == lex2.subrange(0, lex.len() + 1 as int)[0]);
            assert(lex2[lex.len() as int] == lex2.subrange(0, lex.len() + 1 as int)[lex.len() as int]);
            assert(lex2.contains('.'));
        }
    }
}

/// The typing the scanner gives a token: never `FUNCTION`; a reserved
/// lexeme is typed by the table of reserved lexemes; a lexeme that starts
/// with a letter or `_` and is not reserved is typed `VARIABLE`.
pub open spec fn scanner_typed(t: TokenView) -> bool {
    &&& t.token_type != TokenType::FUNCTION
    &&& t.text.len() >= 1
    &&& lookup_code(t.text) matches Some(k) ==> t.token_type == code_type(k)
    &&& char_class(t.text[0]) == 0 ==> t.token_type == lexeme_type(t.text, 4)
}

pub open spec fn all_scanner_typed(ts: Seq<TokenView>) -> bool {
    forall|i: int| 0 <= i < ts.len() ==> #[trigger] scanner_typed(ts[i])
}

/// Taking the characters that continue a lexeme only extends it.
pub proof fn lemma_take_class_extends(cs: CharStreamView, acc: Seq<char>, ident: bool)
    requires
        take_class(cs, acc, ident) is Some,
    ensures
        take_class(cs, acc, ident).unwrap().1.len() >= acc.len(),
        take_class(cs, acc, ident).unwrap().1.subrange(0, acc.len() as int) == acc,
    decreases cs.text.len() - cs.idx,
{
    let c = cs.peek_next().unwrap();
    if (ident && (char_class(c) == 0 || char_class(c) == 1)) || (!ident && char_class(c) == 1) {
        lemma_take_class_extends(cs.advanced(), acc.push(c), ident);
        let lex = take_class(cs, acc, ident).unwrap().1;
        assert(lex.subrange(0, acc.len() as int) =~= lex.subrange(0, acc.len() + 1 as int).subrange(
            0,
            acc.len() as int,
        ));
        assert(acc.push(c).subrange(0, acc.len() as int) =~= acc);
    } else {
        assert(acc.subrange(0, acc.len() as int) =~= acc);
    }
}

/// Skipping blanks passes over blanks only, and stops before the first
/// character that is not one, returning the character the stream stands on,
/// or at the end of the text, returning a space.
pub proof fn lemma_skip_blanks_passes_blanks(cs: CharStreamView)
    requires
        skip_blanks(cs) is Some,
    ensures
        ({
            let (cs2, c) = skip_blanks(cs).unwrap();
            &&& cs2.text == cs.text
            &&& cs.idx <= cs2.idx
            &&& forall|j: int| cs.idx < j <= cs2.idx ==> is_blank(#[trigger] cs.text[j])
            &&& (cs2.idx == cs2.len - 1 && c == ' ') || (cs2.peek_next() matches Some(n)
                && !is_blank(n) && cs2.cur() == Some(c))
        }),
    decreases cs.text.len() - cs.idx,
{
    let n = cs.peek_next().unwrap();
    if is_blank(n) {
        let cs1 = cs.advanced();
        if cs1.idx != cs1.len - 1 {
            lemma_skip_blanks_passes_blanks(cs1);
        }
    }
}

/// A character continues a lexeme: letters, `_` and numerals continue an
/// identifier, numerals continue a number.
pub open spec fn continues(c: char, ident: bool) -> bool {
    (ident && (char_class(c) == 0 || char_class(c) == 1)) || (!ident && char_class(c) == 1)
}

/// Taking the characters that continue a lexeme takes the longest run of
/// them after the current character: the lexeme grows by exactly the
/// characters passed over, each of which continues it, and the character
/// after the run does not.
pub proof fn lemma_take_class_longest_run(cs: CharStreamView, acc: Seq<char>, ident: bool)
    requires
        take_class(cs, acc, ident) is Some,
        cs.idx < cs.text.len(),
    ensures
        ({
            let (cs2, lex) = take_class(cs, acc, ident).unwrap();
            &&& cs2.text == cs.text
            &&& cs.idx <= cs2.idx < cs.text.len()
            &&& lex == acc + cs.text.subrange(cs.idx + 1, cs2.idx + 1)
            &&& forall|j: int| cs.idx < j <= cs2.idx ==> continues(#[trigger] cs.text[j], ident)
            &&& cs2.peek_next() matches Some(c) && !continues(c, ident)
        }),
    decreases cs.text.len() - cs.idx,
{
    let c = cs.peek_next().unwrap();
    if continues(c, ident) {
        let cs1 = cs.advanced();
        lemma_take_class_longest_run(cs1, acc.push(c), ident);
        let (cs2, lex) = take_class(cs, acc, ident).unwrap();
        assert(cs.text.subrange(cs.idx + 1, cs2.idx + 1) =~= seq![c] + cs.text.subrange(
            cs1.idx + 1,
            cs2.idx + 1,
        ));
        assert(lex =~= acc + cs.text.subrange(cs.idx + 1, cs2.idx + 1));
    } else {
        assert(cs.text.subrange(cs.idx + 1, cs.idx + 1) =~= Seq::<char>::empty());
        assert(acc + Seq::<char>::empty() =~= acc);
    }
}

/// Each lexing step records a token typed as `scanner_typed` says.
pub proof fn lemma_lexed_typed(s: ScannerView)
    requires
        s.lexed() is Some,
    ensures
        scanner_typed(s.lexed().unwrap().tokens.last()),
{
    let cs = s.cs;
    let (cs1, c0) = if s.starting() {
        (cs, cs.cur().unwrap())
    } else {
        (cs.advanced(), cs.peek_next().unwrap())
    };
    let class = char_class(c0);
    if class == 0 {
        lemma_take_class_extends(cs1, seq![c0], true);
        let lex = take_class(cs1, seq![c0], true).unwrap().1;
        assert(lex[0] == lex.subrange(0, 1)[0]);
    } else if class == 1 || class == 3 {
        lemma_take_class_extends(cs1, seq![c0], false);
        let (cs2, lex) = take_class(cs1, seq![c0], false).unwrap();
        assert(lex[0] == lex.subrange(0, 1)[0]);
        if cs2.peek_next() == Some('.') {
            lemma_take_class_extends(cs2.advanced(), lex.push('.'), false);
            let lex2 = take_class(cs2.advanced(), lex.push('.'), false).unwrap().1;
            assert(lex2[0] == lex2.subrange(0, lex.len() + 1 as int)[0]);
        }
    }
}

/// Every token the scanner makes while reading a whole text is typed as
/// `scanner_typed` says: no token comes out typed `FUNCTION`, and every
/// identifier that is not reserved comes out typed `VARIABLE`.
pub proof fn lemma_scanned_typed(s: ScannerView)
    requires
        s.scanned() is Some,
        all_scanner_typed(s.tokens),
    ensures
        all_scanner_typed(s.scanned().unwrap().tokens),
    decreases s.scan_measure(),
{
    if s.cs.more() {
        let s1 = s.lexed().unwrap();
        lemma_lex_adds_one_token(s);
        lemma_lexed_typed(s);
        assert forall|i: int| 0 <= i < s1.tokens.len() implies #[trigger] scanner_typed(
            s1.tokens[i],
        ) by {
            if i < s.tokens.len() {
                assert(s1.tokens.drop_last()[i] == s1.tokens[i]);
            }
        }
        let s2 = s1.blanks_skipped().unwrap();
        lemma_scanned_typed(s2);
    }
}

/// The text a peek at the next token shows is the text of the token handed
/// out next, and a peek shows nothing exactly when no token is handed out.
pub proof fn lemma_peek_is_next_token(s: ScannerView)
    requires
        s.peek_token_safe(0),
        s.next_token_safe(),
    ensures
        s.peek_token(0) is None <==> s.next_token().1 is None,
        s.next_token().1 matches Some(t) ==> s.peek_token(0) == Some(t.text),
{
}

} // verus!

use vstd::prelude::*;

use crate::parse_model::ParserView;
use crate::parser::Parser;
use crate::scanner::opt_token_view;
use crate::text::str_eq;
use crate::token::{Token, TokenType, TokenView};

verus! {

/// `String::push_str` appends the given text to the string's contents.
pub assume_specification[ String::push_str ](s: &mut String, string: &str)
    ensures
        final(s)@ == old(s)@ + string@,
;

/// The opening of the colour tag for each kind of token, bold for constants,
/// operators and keywords; no colour is given to the other kinds.
pub open spec fn color_of(tt: TokenType) -> Option<Seq<char>> {
    match tt {
        TokenType::FUNCTION => Some("\"orange\">"@),
        TokenType::VARIABLE => Some("\"yellow\">"@),
        TokenType::FLOATCONSTANT => Some("\"aqua\"><b>"@),
        TokenType::INTCONSTANT => Some("\"aqua\"><b>"@),
        TokenType::OPERATOR => Some("\"white\"><b>"@),
        TokenType::KEYWORD => Some("\"white\"><b>"@),
        _ => None,
    }
}

pub open spec fn is_bold(tt: TokenType) -> bool {
    tt == TokenType::FLOATCONSTANT || tt == TokenType::INTCONSTANT || tt == TokenType::OPERATOR
        || tt == TokenType::KEYWORD
}

/// `piece` repeated `n` times.
pub open spec fn repeat_text(piece: Seq<char>, n: nat) -> Seq<char>
    decreases n,
{
    if n == 0 {
        Seq::empty()
    } else {
        repeat_text(piece, (n - 1) as nat) + piece
    }
}

/// The indentation of a line at depth `tab`.
pub open spec fn indent(tab: i32) -> Seq<char> {
    repeat_text(
        if tab == 1 {
            "&nbsp;&nbsp; &nbsp;"@
        } else {
            "&nbsp; &nbsp;"@
        },
        tab as nat,
    )
}

/// The markup of one token.
pub open spec fn token_markup(t: TokenView, color: Seq<char>) -> Seq<char> {
    "<font color="@ + color + t.text + if is_bold(t.token_type) {
        "</b></font> "@
    } else {
        "</font> "@
    }
}

/// The markup written for token `t` at depth `tab`, with `seen` telling
/// whether a line break was just written and `p1` the parser after handing
/// `t` out; with it the depth and line-break flag for the next token. `None`
/// when this fails at run time.
pub open spec fn render_step(t: TokenView, p1: ParserView, tab: i32, seen: bool) -> Option<
    (Seq<char>, i32, bool),
> {
    let closes = t.text == "}"@ && tab != 0;
    if closes && tab == i32::MIN {
        None
    } else {
        let tab1 = if closes {
            (tab - 1) as i32
        } else {
            tab
        };
        let ind = if tab1 >= 1 && seen {
            indent(tab1)
        } else {
            Seq::empty()
        };
        let seen1 = if tab1 >= 1 && seen {
            false
        } else {
            seen
        };
        match color_of(t.token_type) {
            None => None,
            Some(c) => if !p1.out_safe() || (p1.peek_out() is Some && t.line_number == i32::MAX)
                || (t.text == "{"@ && tab1 == i32::MAX) {
                None
            } else {
                let brk = match p1.peek_out() {
                    Some(j) => j >= t.line_number + 1,
                    None => false,
                };
                Some(
                    (
                        ind + token_markup(t, c) + if brk {
                            "<br />\n"@
                        } else {
                            Seq::empty()
                        },
                        if t.text == "{"@ {
                            (tab1 + 1) as i32
                        } else {
                            tab1
                        },
                        if brk {
                            true
                        } else {
                            seen1
                        },
                    ),
                )
            },
        }
    }
}

/// The markup of the accepted tokens not yet handed out, at depth `tab`,
/// with `seen` telling whether a line break was just written; `None` when
/// rendering fails at run time. With it, the parser after handing them all
/// out.
pub open spec fn render_tokens(p: ParserView, tab: i32, seen: bool) -> Option<
    (ParserView, Seq<char>),
>
    decreases p.parsed.len(),
{
    if !p.out_safe() {
        None
    } else {
        match p.out() {
            (p1, None) => Some((p1, Seq::empty())),
            (p1, Some(t)) => match render_step(t, p1, tab, seen) {
                None => None,
                Some((piece, tab2, seen2)) => if p1.parsed.len() < p.parsed.len() {
                    match render_tokens(p1, tab2, seen2) {
                        None => None,
                        Some((p2, rest)) => Some((p2, piece + rest)),
                    }
                } else {
                    None
                },
            },
        }
    }
}

pub open spec fn xhtml_header() -> Seq<char> {
    "<!DOCTYPE html PUBLIC "@ + "\"-//W3C//DTD XHTML 1.0 Transitional//EN\""@
        + " \"http://www.w3.org/TR/xhtml1/DTD/xhtml1-transitional.dtd\""@ + ">\n"@
        + "<html xmlns="@ + "\"http://www.w3.org/1999/xhtml\" "@ + "xml:lang=\"en\">\n"@
        + "<head>\n"@ + "<title>\n"@ + "X Formatted file</title>\n"@ + "</head>\n"@
        + "<body bgcolor=\"navy\" text=\"yellow\" link=\"yellow\" vlink=\"yellow\">\n"@
        + "<font face=\"Courier New\">\n"@
}

pub open spec fn xhtml_footer() -> Seq<char> {
    "</font>\n"@ + "</body>\n"@ + "</html>\n"@
}

/// The coloured XHTML page of the accepted tokens not yet handed out, and the
/// parser after handing them out.
pub open spec fn xhtml_page(p: ParserView) -> Option<(ParserView, Seq<char>)> {
    match render_tokens(p, 0, false) {
        None => None,
        Some((p1, body)) => Some((p1, xhtml_header() + body + xhtml_footer())),
    }
}

/// The colours of the page: function names orange, variables yellow,
/// constants aqua and bold, operators and keywords white and bold; tokens of
/// no type or an invalid one have no colour and cannot be written.
pub proof fn lemma_token_colours()
    ensures
        color_of(TokenType::FUNCTION) == Some("\"orange\">"@),
        color_of(TokenType::VARIABLE) == Some("\"yellow\">"@),
        color_of(TokenType::FLOATCONSTANT) == Some("\"aqua\"><b>"@),
        color_of(TokenType::INTCONSTANT) == Some("\"aqua\"><b>"@),
        color_of(TokenType::OPERATOR) == Some("\"white\"><b>"@),
        color_of(TokenType::KEYWORD) == Some("\"white\"><b>"@),
        color_of(TokenType::INVALID) is None,
        color_of(TokenType::NONE) is None,
        !is_bold(TokenType::FUNCTION),
        !is_bold(TokenType::VARIABLE),
        is_bold(TokenType::FLOATCONSTANT),
        is_bold(TokenType::INTCONSTANT),
        is_bold(TokenType::OPERATOR),
        is_bold(TokenType::KEYWORD),
{
}

/// A line inside one pair of braces is indented by `&nbsp;&nbsp; &nbsp;`;
/// deeper lines by `&nbsp; &nbsp;` once per level.
pub proof fn lemma_indentation(n: i32)
    requires
        n >= 2,
    ensures
        indent(1) == "&nbsp;&nbsp; &nbsp;"@,
        indent(n) == indent((n - 1) as i32).subrange(0, 0) + repeat_text("&nbsp; &nbsp;"@, (n - 1) as nat)
            + "&nbsp; &nbsp;"@,
{
    assert(repeat_text("&nbsp;&nbsp; &nbsp;"@, 0) =~= Seq::<char>::empty());
    assert(Seq::<char>::empty() + "&nbsp;&nbsp; &nbsp;"@ =~= "&nbsp;&nbsp; &nbsp;"@);
    assert(indent((n - 1) as i32).subrange(0, 0) =~= Seq::<char>::empty());
    assert(Seq::<char>::empty() + repeat_text("&nbsp; &nbsp;"@, (n - 1) as nat)
        =~= repeat_text("&nbsp; &nbsp;"@, (n - 1) as nat));
}

/// The markup of a token is its coloured font tag, its text, and the
/// closing of the tag (bold closed first where the colour opened it); each
/// `{` deepens the indentation of the lines after it by one and each `}`
/// (at a positive depth) makes its own line one shallower.
pub proof fn lemma_token_markup_and_depth(t: TokenView, p1: ParserView, tab: i32, seen: bool)
    requires
        render_step(t, p1, tab, seen) is Some,
    ensures
        ({
            let (piece, tab2, seen2) = render_step(t, p1, tab, seen).unwrap();
            let inner = if t.text == "}"@ && tab != 0 {
                tab - 1
            } else {
                tab as int
            };
            let ind = if inner >= 1 && seen {
                indent(inner as i32)
            } else {
                Seq::empty()
            };
            let post = if p1.peek_out() matches Some(j) && j > t.line_number {
                "<br />\n"@
            } else {
                Seq::empty()
            };
            &&& tab2 == inner + if t.text == "{"@ {
                1int
            } else {
                0int
            }
            &&& piece == ind + "<font color="@ + color_of(t.token_type).unwrap() + t.text + (
            if is_bold(t.token_type) {
                "</b></font> "@
            } else {
                "</font> "@
            }) + post
        }),
{
    let (piece, tab2, seen2) = render_step(t, p1, tab, seen).unwrap();
    let inner = if t.text == "}"@ && tab != 0 {
        (tab - 1) as i32
    } else {
        tab
    };
    let ind = if inner >= 1 && seen {
        indent(inner)
    } else {
        Seq::empty()
    };
    let brk = match p1.peek_out() {
        Some(j) => j >= t.line_number + 1,
        None => false,
    };
    let post = if brk {
        "<br />\n"@
    } else {
        Seq::<char>::empty()
    };
    let c = color_of(t.token_type).unwrap();
    assert(piece =~= ind + "<font color="@ + c + t.text + (if is_bold(t.token_type) {
        "</b></font> "@
    } else {
        "</font> "@
    }) + post);
}

/// A token's markup is followed by a line break exactly when the next
/// accepted token lies on a later line, however many lines later: the text
/// written for a token ends with `<br />` and a newline when the next
/// token's line number is greater than its own, and otherwise ends with the
/// closing of its font tag and a space.
pub proof fn lemma_line_break_before_later_line(
    t: TokenView,
    p1: ParserView,
    tab: i32,
    seen: bool,
)
    requires
        render_step(t, p1, tab, seen) is Some,
    ensures
        ({
            let piece = render_step(t, p1, tab, seen).unwrap().0;
            let later = p1.peek_out() matches Some(j) && j > t.line_number;
            &&& piece.len() >= 7
            &&& later ==> piece.subrange(piece.len() - 7, piece.len() as int) == "<br />\n"@
            &&& !later ==> piece.last() == ' '
            &&& piece.last() == '\n' <==> later
        }),
{
    reveal_strlit("<br />\n");
    reveal_strlit("</font> ");
    reveal_strlit("</b></font> ");
    reveal_strlit("<font color=");
    let piece = render_step(t, p1, tab, seen).unwrap().0;
    let later = p1.peek_out() matches Some(j) && j > t.line_number;
    let closing = if is_bold(t.token_type) {
        "</b></font> "@
    } else {
        "</font> "@
    };
    assert(closing.last() == ' ');
    if later {
        assert(piece.subrange(piece.len() - 7, piece.len() as int) =~= "<br />\n"@);
    } else {
        assert(piece.last() == closing.last());
    }
}

/// Rendering writes every accepted token: when the count of accepted tokens
/// matches those not yet handed out, a rendering that succeeds hands all of
/// them out, and its body is their markup in order, the first one's first.
pub proof fn lemma_render_writes_every_token(p: ParserView, tab: i32, seen: bool)
    requires
        p.num_parsed - p.parsed.len() == p.out_cur + 1,
        render_tokens(p, tab, seen) is Some,
    ensures
        render_tokens(p, tab, seen).unwrap().0.parsed.len() == 0,
        p.parsed.len() > 0 ==> ({
            let t = p.parsed[0];
            let (piece, _, _) = render_step(t, p.out().0, tab, seen).unwrap();
            &&& render_step(t, p.out().0, tab, seen) is Some
            &&& render_tokens(p, tab, seen).unwrap().1 == piece + render_tokens(
                p.out().0,
                render_step(t, p.out().0, tab, seen).unwrap().1,
                render_step(t, p.out().0, tab, seen).unwrap().2,
            ).unwrap().1
        }),
    decreases p.parsed.len(),
{
    if p.parsed.len() > 0 {
        let (p1, t) = p.out();
        let (piece, tab2, seen2) = render_step(t.unwrap(), p1, tab, seen).unwrap();
        lemma_render_writes_every_token(p1, tab2, seen2);
    }
}

fn color_tag(tt: TokenType) -> (r: Option<&'static str>)
    ensures
        r is Some == color_of(tt) is Some,
        r matches Some(c) ==> c@ == color_of(tt).unwrap(),
{
    match tt {
        TokenType::FUNCTION => Some("\"orange\">"),
        TokenType::VARIABLE => Some("\"yellow\">"),
        TokenType::FLOATCONSTANT => Some("\"aqua\"><b>"),
        TokenType::INTCONSTANT => Some("\"aqua\"><b>"),
        TokenType::OPERATOR => Some("\"white\"><b>"),
        TokenType::KEYWORD => Some("\"white\"><b>"),
        TokenType::INVALID => None,
        TokenType::NONE => None,
    }
}

fn bold(tt: TokenType) -> (r: bool)
    ensures
        r == is_bold(tt),
{
    tt == TokenType::FLOATCONSTANT || tt == TokenType::INTCONSTANT || tt == TokenType::OPERATOR
        || tt == TokenType::KEYWORD
}

/// Writes the markup of one token and updates the depth and line-break flag;
/// returns false, writing nothing, when the token cannot be written (it has
/// no colour, or a count would overflow).
fn render_token(
    data: &mut String,
    i: &Token,
    parser: &mut Parser,
    tab_count: &mut i32,
    seen_new_line: &mut bool,
) -> (ok: bool)
    ensures
        ok == render_step(i@, old(parser)@, *old(tab_count), *old(seen_new_line)) is Some,
        final(parser)@ == old(parser)@,
        ok ==> ({
            let (piece, tab2, seen2) = render_step(
                i@,
                old(parser)@,
                *old(tab_count),
                *old(seen_new_line),
            ).unwrap();
            &&& final(data)@ == old(data)@ + piece
            &&& *final(tab_count) == tab2
            &&& *final(seen_new_line) == seen2
        }),
{
    let closes = str_eq(i.get_text(), "}") && *tab_count != 0;
    if closes && *tab_count == i32::MIN {
        return false;
    }
    let tab1 = if closes {
        *tab_count - 1
    } else {
        *tab_count
    };
    let color = match color_tag(i.get_type()) {
        Some(c) => c,
        None => return false,
    };
    if !parser.can_hand_out() {
        return false;
    }
    let peek_next = parser.peek_ahead_token();
    if peek_next.is_some() && i.get_line_number() == i32::MAX {
        return false;
    }
    let opens = str_eq(i.get_text(), "{");
    if opens && tab1 == i32::MAX {
        return false;
    }
    let ghost before = data@;
    *tab_count = tab1;
    if *tab_count >= 1 && *seen_new_line {
        let ghost piece = if *tab_count == 1 {
            "&nbsp;&nbsp; &nbsp;"@
        } else {
            "&nbsp; &nbsp;"@
        };
        let mut k: i32 = 0;
        while k < *tab_count
            invariant
                0 <= k <= *tab_count,
                *tab_count >= 1,
                piece == if *tab_count == 1 {
                    "&nbsp;&nbsp; &nbsp;"@
                } else {
                    "&nbsp; &nbsp;"@
                },
                data@ == before + repeat_text(piece, k as nat),
            decreases *tab_count - k,
        {
            if *tab_count == 1 {
                data.push_str("&nbsp;&nbsp; &nbsp;");
            }
            if *tab_count > 1 {
                data.push_str("&nbsp; &nbsp;");
            }
            k = k + 1;
        }
        *seen_new_line = false;
    }
    let ghost after_indent = data@;
    data.push_str("<font color=");
    data.push_str(color);
    data.push_str(i.get_text());
    if bold(i.get_type()) {
        data.push_str("</b></font> ");
    } else {
        data.push_str("</font> ");
    }
    assert(data@ =~= after_indent + token_markup(i@, color_of(i@.token_type).unwrap()));
    if let Some(j) = peek_next {
        if j >= i.get_line_number() + 1 {
            data.push_str("<br />\n");
            *seen_new_line = true;
        }
    }
    if opens {
        *tab_count = *tab_count + 1;
    }
    proof {
        let (piece, tab2, seen2) = render_step(
            i@,
            old(parser)@,
            *old(tab_count),
            *old(seen_new_line),
        ).unwrap();
        assert(data@ =~= before + piece);
    }
    true
}

/// Writes the accepted tokens as an XHTML page: each token coloured by its
/// type, lines broken where the source broke them, and the contents of
/// braces indented. `None` when a token cannot be written (it has no colour,
/// or a count would overflow).
pub fn render_xhtml(parser: &mut Parser) -> (r: Option<String>)
    ensures
        r is Some == xhtml_page(old(parser)@) is Some,
        r matches Some(page) ==> (final(parser)@, page@) == xhtml_page(old(parser)@).unwrap(),
{
    let mut data = String::new();
    data.push_str("<!DOCTYPE html PUBLIC ");
    data.push_str("\"-//W3C//DTD XHTML 1.0 Transitional//EN\"");
    data.push_str(" \"http://www.w3.org/TR/xhtml1/DTD/xhtml1-transitional.dtd\"");
    data.push_str(">\n");
    data.push_str("<html xmlns=");
    data.push_str("\"http://www.w3.org/1999/xhtml\" ");
    data.push_str("xml:lang=\"en\">\n");
    data.push_str("<head>\n");
    data.push_str("<title>\n");
    data.push_str("X Formatted file</title>\n");
    data.push_str("</head>\n");
    data.push_str("<body bgcolor=\"navy\" text=\"yellow\" link=\"yellow\" vlink=\"yellow\">\n");
    data.push_str("<font face=\"Courier New\">\n");
    assert(data@ =~= xhtml_header());
    let ghost p0 = parser@;
    let ghost mut pending = p0;
    let ghost mut done: Seq<char> = Seq::empty();
    let mut tab_count: i32 = 0;
    let mut seen_new_line = false;
    assert(xhtml_header() + done =~= xhtml_header());
    loop
        invariant
            data@ == xhtml_header() + done,
            parser@ == pending,
            p0 == old(parser)@,
            render_tokens(p0, 0, false) == (match render_tokens(
                pending,
                tab_count,
                seen_new_line,
            ) {
                None => None::<(ParserView, Seq<char>)>,
                Some((p2, rest)) => Some((p2, done + rest)),
            }),
        decreases pending.parsed.len(),
    {
        if !parser.can_hand_out() {
            assert(render_tokens(pending, tab_count, seen_new_line) is None);
            assert(render_tokens(p0, 0, false) is None);
            return None;
        }
        let ghost before_out = parser@;
        let cur_tok = parser.out_token();
        match cur_tok {
            None => {
                assert(done + Seq::<char>::empty() =~= done);
                data.push_str("</font>\n");
                data.push_str("</body>\n");
                data.push_str("</html>\n");
                assert(data@ =~= xhtml_header() + done + xhtml_footer());
                assert(render_tokens(pending, tab_count, seen_new_line) == Some(
                    (parser@, Seq::<char>::empty()),
                ));
                assert(render_tokens(p0, 0, false) == Some((parser@, done)));
                return Some(data);
            },
            Some(i) => {
                let ghost p1 = parser@;
                let ghost before = data@;
                let ghost tab0 = tab_count;
                let ghost seen0 = seen_new_line;
                if !render_token(&mut data, &i, parser, &mut tab_count, &mut seen_new_line) {
                    assert(before_out.out() == (p1, Some(i@)));
                    assert(render_tokens(pending, tab0, seen0) is None);
                    assert(render_tokens(p0, 0, false) is None);
                    return None;
                }
                proof {
                    let (piece, tab2, seen2) = render_step(i@, p1, tab0, seen0).unwrap();
                    assert(data@ =~= xhtml_header() + (done + piece));
                    match render_tokens(p1, tab2, seen2) {
                        None => {},
                        Some((p2, rest)) => {
                            assert(done + (piece + rest) =~= (done + piece) + rest);
                        },
                    }
                    done = done + piece;
                    pending = parser@;
                }
            },
        }
    }
}

} // verus!

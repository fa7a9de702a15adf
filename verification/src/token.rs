use vstd::prelude::*;

verus! {

/// The kind of a lexeme, as assigned by the scanner and refined by the parser.
#[allow(non_camel_case_types)]
#[derive(Clone, Copy, Debug, PartialEq, Eq, Structural)]
pub enum TokenType {
    KEYWORD,
    OPERATOR,
    INTCONSTANT,
    FLOATCONSTANT,
    VARIABLE,
    FUNCTION,
    INVALID,
    NONE,
}

/// The display name of each token type.
pub open spec fn token_type_name(tt: TokenType) -> Seq<char> {
    match tt {
        TokenType::KEYWORD => "Keyword"@,
        TokenType::OPERATOR => "Operator"@,
        TokenType::INTCONSTANT => "IntConstant"@,
        TokenType::FLOATCONSTANT => "FloatConstant"@,
        TokenType::VARIABLE => "Variable"@,
        TokenType::FUNCTION => "Function"@,
        TokenType::INVALID => "Invalid"@,
        TokenType::NONE => "None"@,
    }
}

impl TokenType {
    /// The display name of this token type.
    pub fn as_str(&self) -> (r: &'static str)
        ensures
            r@ == token_type_name(*self),
    {
        match self {
            TokenType::KEYWORD => "Keyword",
            TokenType::OPERATOR => "Operator",
            TokenType::INTCONSTANT => "IntConstant",
            TokenType::FLOATCONSTANT => "FloatConstant",
            TokenType::VARIABLE => "Variable",
            TokenType::FUNCTION => "Function",
            TokenType::INVALID => "Invalid",
            TokenType::NONE => "None",
        }
    }
}

/// The mathematical content of a token.
pub struct TokenView {
    pub text: Seq<char>,
    pub token_type: TokenType,
    pub line_number: i32,
    pub char_pos: i32,
}

/// A lexeme with its type and the position at which the scanner produced it.
pub struct Token {
    text: String,
    token_type: TokenType,
    line_number: i32,
    char_pos: i32,
}

impl View for Token {
    type V = TokenView;

    closed spec fn view(&self) -> TokenView {
        TokenView {
            text: self.text@,
            token_type: self.token_type,
            line_number: self.line_number,
            char_pos: self.char_pos,
        }
    }
}

impl Token {
    pub fn new(text: String, token_type: TokenType, line_number: i32, char_pos: i32) -> (t: Token)
        ensures
            t@ == (TokenView { text: text@, token_type, line_number, char_pos }),
    {
        Token { text, token_type, line_number, char_pos }
    }

    pub fn get_text(&self) -> (r: &str)
        ensures
            r@ == self@.text,
    {
        self.text.as_str()
    }

    pub fn get_type(&self) -> (r: TokenType)
        ensures
            r == self@.token_type,
    {
        self.token_type
    }

    pub fn get_line_number(&self) -> (r: i32)
        ensures
            r == self@.line_number,
    {
        self.line_number
    }

    pub fn get_char_pos(&self) -> (r: i32)
        ensures
            r == self@.char_pos,
    {
        self.char_pos
    }

    pub fn set_token_type(&mut self, tt: TokenType)
        ensures
            final(self)@ == (TokenView { token_type: tt, ..old(self)@ }),
    {
        self.token_type = tt;
    }
}

} // verus!

use vstd::prelude::*;

verus! {

/// Why a parse was refused; each kind is one diagnostic of the parser.
#[derive(Clone, Copy, Debug, PartialEq, Eq, Structural)]
pub enum ErrorKind {
    /// invalid/missing main declaration
    MissingMainDecl,
    /// expected data type
    ExpectedDataType,
    /// expected variable declaration
    ExpectedVarDecl,
    /// expected function declaration
    ExpectedFuncDecl,
    /// missing either "=", ";", or "("
    MissingDeclContinuation,
    /// main declaration is missing keyword "void"
    MainMissingVoid,
    /// main declaration is missing keyword "main"
    MainMissingMain,
    /// main declaration is missing operator "("
    MainMissingOpenParen,
    /// main declaration is missing operator ")"
    MainMissingCloseParen,
    /// block expected (after the main declaration)
    MainBlockExpected,
    /// type expected (function definition)
    FuncDefTypeExpected,
    /// param block expected for a function definition
    FuncDefParamBlockExpected,
    /// block expected for a function definition
    FuncDefBlockExpected,
    /// identifier expected (after a data type)
    IdentifierExpected,
    /// expected constant after "="
    ConstantExpected,
    /// expected ";"
    ExpectedSemicolon,
    /// missing operator "{"
    MissingOpenBrace,
    /// missing/invalid declaration
    InvalidDeclaration,
    /// missing/invalid statement
    InvalidStatement,
    /// missing/invalid function definition
    InvalidFunctionDef,
    /// missing operator "}"
    MissingCloseBrace,
    /// "(" expected for param block
    ParamBlockOpenParen,
    /// missing operator ")"
    MissingCloseParen,
    /// expected assignment
    ExpectedAssignment,
    /// expected identifier (parameter)
    ParamIdentifierExpected,
    /// expected data type after "unsigned" keyword
    ExpectedTypeAfterUnsigned,
    /// expected variable (assignment)
    ExpectedVariable,
    /// missing "=" after assignment
    MissingAssignEquals,
    /// expression expected (assignment)
    ExpressionExpected,
    /// while loop is missing keyword "while"
    WhileMissingKeyword,
    /// while loop is missing operator "("
    WhileMissingOpenParen,
    /// while loop is missing an expression
    WhileMissingExpression,
    /// while loop is missing operator ")"
    WhileMissingCloseParen,
    /// block expected (while loop)
    WhileBlockExpected,
    /// if statement is missing keyword "if"
    IfMissingKeyword,
    /// if statement is missing operator "("
    IfMissingOpenParen,
    /// expression expected (if statement)
    IfMissingExpression,
    /// if statement is missing operator ")"
    IfMissingCloseParen,
    /// block expected for if statement
    IfBlockExpected,
    /// expression expected after "return"
    ReturnMissingExpression,
    /// valid simple expression expected after relation operator
    RelOpOperandExpected,
    /// missing "+" or "-"
    MissingAddOp,
    /// invalid/missing term
    InvalidTerm,
    /// missing "*" or "/"
    MissingMultOp,
    /// invalid/missing factor
    InvalidFactor,
    /// missing identifier (factor)
    MissingIdentifier,
    /// text left over after the program
    TrailingInput,
}

/// A refused parse: the diagnostic and the line of the token the parser
/// stood on when it gave up.
#[derive(Clone, Copy, Debug, PartialEq, Eq, Structural)]
pub struct ParseError {
    pub kind: ErrorKind,
    pub line: i32,
}

} // verus!

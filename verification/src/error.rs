use vstd::prelude::*;

verus! {

/// A position in the source text: 1-based line and column numbers.
#[derive(Debug, Clone, Copy, PartialEq, Eq, Structural)]
pub struct Location {
    pub line: usize,
    pub column: usize,
}

impl Location {
    pub fn new(line: usize, column: usize) -> (r: Self)
        ensures
            r.line == line,
            r.column == column,
    {
        Location { line, column }
    }
}

/// An error found while scanning: a malformed numeric literal or an
/// unrecognized character, with the place where it was found.
#[derive(Debug, Clone)]
pub struct LexerError {
    pub message: String,
    pub location: Location,
}

impl LexerError {
    pub fn new(message: &str, location: Location) -> (r: Self)
        ensures
            r.message@ == message@,
            r.location == location,
    {
        LexerError { message: message.to_owned(), location }
    }
}

/// An error found while parsing: a token that does not fit the grammar, or
/// trailing input, with the place of the offending token. One scanning
/// error surfacing under the parser is lifted into this kind unchanged.
#[derive(Debug, Clone)]
pub struct ParseError {
    pub message: String,
    pub location: Location,
}

impl ParseError {
    pub fn new(message: &str, location: Location) -> (r: Self)
        ensures
            r.message@ == message@,
            r.location == location,
    {
        ParseError { message: message.to_owned(), location }
    }

    /// Lifts a scanning error, keeping its message and its location.
    pub fn from_lexer_error(err: LexerError) -> (r: Self)
        ensures
            r.message@ == err.message@,
            r.location == err.location,
    {
        ParseError { message: err.message, location: err.location }
    }
}

/// An error found while evaluating. Evaluation has no notion of a source
/// position, so none is carried.
#[derive(Debug, Clone, PartialEq, Eq, Structural)]
pub enum EvalError {
    DivisionByZero,
    Overflow,
    Underflow,
}

} // verus!

use vstd::prelude::*;
use vstd::string::StringExecFns;

use crate::error::{LexerError, Location};
use crate::num::{all_digits, is_digit_char, is_number_literal, literal_bits, parse_number_literal, Num};
use crate::text::{push_char, str_chars};
use crate::token::Token;

verus! {

/// The Unicode White_Space classification of a character.
pub uninterp spec fn is_space(c: char) -> bool;

/// Relies on char::is_whitespace: whether a character has the Unicode
/// White_Space property is fixed by that character alone. Space, tab,
/// newline and carriage return have the property; the printable ASCII
/// characters do not.
#[verifier::external_body]
fn is_space_char(c: char) -> (r: bool)
    ensures
        r == is_space(c),
        c == ' ' || c == '\t' || c == '\n' || c == '\r' ==> r,
        33 <= c as u32 <= 126 ==> !r,
{
    c.is_whitespace()
}

fn is_digit(c: char) -> (r: bool)
    ensures
        r == is_digit_char(c),
{
    let u = c as u32;
    48 <= u && u <= 57
}

/// The 1-based line number of the character at position `pos`: one more
/// than the number of newlines before it.
pub open spec fn line_at(input: Seq<char>, pos: int) -> int
    decreases pos,
{
    if pos <= 0 {
        1
    } else {
        line_at(input, pos - 1) + (if input[pos - 1] == '\n' {
            1int
        } else {
            0int
        })
    }
}

/// The 1-based column of the character at position `pos`: columns restart
/// at 1 after each newline and grow by one per character otherwise.
pub open spec fn col_at(input: Seq<char>, pos: int) -> int
    decreases pos,
{
    if pos <= 0 {
        1
    } else if input[pos - 1] == '\n' {
        1
    } else {
        col_at(input, pos - 1) + 1
    }
}

proof fn lemma_pos_bounds(input: Seq<char>, pos: int)
    requires
        0 <= pos,
    ensures
        1 <= line_at(input, pos) <= pos + 1,
        1 <= col_at(input, pos) <= pos + 1,
    decreases pos,
{
    if pos > 0 {
        lemma_pos_bounds(input, pos - 1);
    }
}

/// The first position at or after `pos` that does not hold whitespace.
pub open spec fn ws_end(input: Seq<char>, pos: int) -> int
    decreases input.len() - pos,
{
    if 0 <= pos < input.len() && is_space(input[pos]) {
        ws_end(input, pos + 1)
    } else {
        pos
    }
}

proof fn lemma_ws_end_bounds(input: Seq<char>, pos: int)
    requires
        0 <= pos <= input.len(),
    ensures
        pos <= ws_end(input, pos) <= input.len(),
    decreases input.len() - pos,
{
    if pos < input.len() && is_space(input[pos]) {
        lemma_ws_end_bounds(input, pos + 1);
    }
}

/// The first position at or after `pos` that does not hold a digit.
pub open spec fn digits_end(input: Seq<char>, pos: int) -> int
    decreases input.len() - pos,
{
    if 0 <= pos < input.len() && is_digit_char(input[pos]) {
        digits_end(input, pos + 1)
    } else {
        pos
    }
}

proof fn lemma_digits_end(input: Seq<char>, pos: int)
    requires
        0 <= pos <= input.len(),
    ensures
        pos <= digits_end(input, pos) <= input.len(),
        forall|j: int| pos <= j < digits_end(input, pos) ==> is_digit_char(#[trigger] input[j]),
    decreases input.len() - pos,
{
    if pos < input.len() && is_digit_char(input[pos]) {
        lemma_digits_end(input, pos + 1);
    }
}

/// Whether the literal whose digits start at `i` is cut short: a point
/// directly after the integer digits with no digit following it.
pub open spec fn decimal_point_error(input: Seq<char>, i: int) -> bool {
    let d = digits_end(input, i);
    d < input.len() && input[d] == '.' && !(d + 1 < input.len() && is_digit_char(input[d + 1]))
}

/// One past the last character of the numeric literal starting at `i`.
pub open spec fn number_end(input: Seq<char>, i: int) -> int {
    let d = digits_end(input, i);
    if d < input.len() && input[d] == '.' && d + 1 < input.len() && is_digit_char(input[d + 1]) {
        digits_end(input, d + 1)
    } else {
        d
    }
}

/// What one scanning step yields: a token or an error, the place it is
/// reported at, and the cursor position after the step.
pub ghost enum LexStep {
    Tok { t: Token, line: int, col: int, end: int },
    Fail { msg: Seq<char>, line: int, col: int, end: int },
}

/// The step the scanner takes from position `pos`: skip whitespace, then
/// classify what follows. The token or error is placed at the first
/// non-whitespace position.
pub open spec fn spec_next(input: Seq<char>, pos: int) -> LexStep {
    let i = ws_end(input, pos);
    let line = line_at(input, i);
    let col = col_at(input, i);
    if i >= input.len() {
        LexStep::Tok { t: Token::Eof, line, col, end: i }
    } else if is_digit_char(input[i]) {
        if decimal_point_error(input, i) {
            LexStep::Fail {
                msg: "Expected digits after decimal point"@,
                line,
                col,
                end: digits_end(input, i) + 1,
            }
        } else {
            LexStep::Tok {
                t: Token::Number(
                    Num { bits: literal_bits(input.subrange(i, number_end(input, i))) },
                ),
                line,
                col,
                end: number_end(input, i),
            }
        }
    } else if input[i] == '+' {
        LexStep::Tok { t: Token::Plus, line, col, end: i + 1 }
    } else if input[i] == '-' {
        LexStep::Tok { t: Token::Minus, line, col, end: i + 1 }
    } else if input[i] == '*' {
        LexStep::Tok { t: Token::Star, line, col, end: i + 1 }
    } else if input[i] == '/' {
        LexStep::Tok { t: Token::Slash, line, col, end: i + 1 }
    } else if input[i] == '(' {
        LexStep::Tok { t: Token::LeftParen, line, col, end: i + 1 }
    } else if input[i] == ')' {
        LexStep::Tok { t: Token::RightParen, line, col, end: i + 1 }
    } else {
        LexStep::Fail {
            msg: "Unexpected character: '"@ + seq![input[i]] + "'"@,
            line,
            col,
            end: i,
        }
    }
}

/// A well-formed scanner's cursor stands inside its input.
pub broadcast proof fn lemma_wf_bounds(l: Lexer)
    ensures
        #[trigger] l.wf() ==> 0 <= l.spec_pos() <= l.input().len(),
{
}

/// Bounds on one scanning step: the cursor never moves backward, never
/// leaves the input, and moves strictly forward past any token that is not
/// the end marker.
pub proof fn lemma_scan_bounds(input: Seq<char>, pos: int)
    requires
        0 <= pos <= input.len(),
    ensures
        spec_next(input, pos) matches LexStep::Tok { t, line, col, end } ==> (pos <= end
            <= input.len() && (!(t is Eof) ==> pos < end)),
        spec_next(input, pos) matches LexStep::Fail { msg, line, col, end } ==> pos <= end
            <= input.len(),
{
    let i = ws_end(input, pos);
    lemma_ws_end_bounds(input, pos);
    if i < input.len() && is_digit_char(input[i]) {
        let d = digits_end(input, i);
        lemma_digits_end(input, i);
        assert(digits_end(input, i) == digits_end(input, i + 1));
        lemma_digits_end(input, i + 1);
        if d < input.len() && input[d] == '.' && d + 1 < input.len() && is_digit_char(
            input[d + 1],
        ) {
            lemma_digits_end(input, d + 1);
        }
    }
}

/// A stateful cursor over the input characters, tracking the 1-based line
/// and column of the character it stands on.
pub struct Lexer {
    chars: Vec<char>,
    pos: usize,
    line: usize,
    column: usize,
}

impl Lexer {
    /// The character sequence being scanned.
    pub closed spec fn input(self) -> Seq<char> {
        self.chars@
    }

    /// The cursor position.
    pub closed spec fn spec_pos(self) -> int {
        self.pos as int
    }

    /// The cursor is inside the input, the input leaves room for the
    /// column counter, and the line and column counters agree with the
    /// cursor position.
    pub closed spec fn wf(self) -> bool {
        &&& self.pos <= self.chars@.len()
        &&& self.chars@.len() < usize::MAX
        &&& self.line == line_at(self.chars@, self.pos as int)
        &&& self.column == col_at(self.chars@, self.pos as int)
    }

    pub fn new(input: &str) -> (r: Lexer)
        requires
            input@.len() < usize::MAX,
        ensures
            r.wf(),
            r.input() == input@,
            r.spec_pos() == 0,
    {
        Lexer { chars: str_chars(input), pos: 0, line: 1, column: 1 }
    }

    /// The current position of the cursor in the source.
    pub fn location(&self) -> (r: Location)
        requires
            self.wf(),
        ensures
            r.line == line_at(self.input(), self.spec_pos()),
            r.column == col_at(self.input(), self.spec_pos()),
    {
        Location::new(self.line, self.column)
    }

    /// Consumes one character, keeping the line and column counters true
    /// to the new position.
    fn advance_char(&mut self) -> (r: Option<char>)
        requires
            old(self).wf(),
        ensures
            final(self).wf(),
            final(self).input() == old(self).input(),
            old(self).spec_pos() < old(self).input().len() ==> r == Some(
                old(self).input()[old(self).spec_pos()],
            ) && final(self).spec_pos() == old(self).spec_pos() + 1,
            old(self).spec_pos() >= old(self).input().len() ==> r is None && *final(self) == *old(
                self,
            ),
    {
        if self.pos < self.chars.len() {
            let c = self.chars[self.pos];
            proof {
                lemma_pos_bounds(self.chars@, self.pos as int);
            }
            self.pos = self.pos + 1;
            if c == '\n' {
                self.line = self.line + 1;
                self.column = 1;
            } else {
                self.column = self.column + 1;
            }
            Some(c)
        } else {
            None
        }
    }

    fn skip_whitespace(&mut self)
        requires
            old(self).wf(),
        ensures
            final(self).wf(),
            final(self).input() == old(self).input(),
            final(self).spec_pos() == ws_end(old(self).input(), old(self).spec_pos()),
    {
        while self.pos < self.chars.len() && is_space_char(self.chars[self.pos])
            invariant
                self.wf(),
                self.input() == old(self).input(),
                ws_end(self.input(), self.spec_pos()) == ws_end(
                    old(self).input(),
                    old(self).spec_pos(),
                ),
            decreases self.input().len() - self.spec_pos(),
        {
            let _ = self.advance_char();
        }
    }

    /// Reads one numeric literal: digits, then optionally a point that must
    /// be followed by at least one digit. The cursor must stand on a digit.
    fn read_number(&mut self) -> (r: Result<Num, LexerError>)
        requires
            old(self).wf(),
            old(self).spec_pos() < old(self).input().len(),
            is_digit_char(old(self).input()[old(self).spec_pos()]),
        ensures
            final(self).wf(),
            final(self).input() == old(self).input(),
            decimal_point_error(old(self).input(), old(self).spec_pos()) ==> (r matches Err(e)
                && e.message@ == "Expected digits after decimal point"@
                && e.location.line == line_at(old(self).input(), old(self).spec_pos())
                && e.location.column == col_at(old(self).input(), old(self).spec_pos())
                && final(self).spec_pos() == digits_end(old(self).input(), old(self).spec_pos())
                + 1),
            !decimal_point_error(old(self).input(), old(self).spec_pos()) ==> (r matches Ok(n)
                && n == (Num {
                    bits: literal_bits(
                        old(self).input().subrange(
                            old(self).spec_pos(),
                            number_end(old(self).input(), old(self).spec_pos()),
                        ),
                    ),
                })
                && final(self).spec_pos() == number_end(old(self).input(), old(self).spec_pos())),
    {
        let ghost input = self.chars@;
        let ghost i = self.pos as int;
        let start_location = self.location();
        let mut num_str = String::new();

        // Integer part
        while self.pos < self.chars.len() && is_digit(self.chars[self.pos])
            invariant
                self.wf(),
                self.input() == input,
                0 <= i <= self.spec_pos() <= input.len(),
                digits_end(input, self.spec_pos()) == digits_end(input, i),
                num_str@ == input.subrange(i, self.spec_pos()),
            decreases input.len() - self.spec_pos(),
        {
            let c = self.chars[self.pos];
            push_char(&mut num_str, c);
            let _ = self.advance_char();
            proof {
                assert(num_str@ =~= input.subrange(i, self.spec_pos()));
            }
        }
        let ghost d = digits_end(input, i);
        proof {
            lemma_digits_end(input, i);
            assert(self.spec_pos() == d);
        }

        // Decimal part
        if self.pos < self.chars.len() && self.chars[self.pos] == '.' {
            push_char(&mut num_str, '.');
            let _ = self.advance_char();
            proof {
                assert(num_str@ =~= input.subrange(i, self.spec_pos()));
            }

            let mut has_decimal_digits = false;
            while self.pos < self.chars.len() && is_digit(self.chars[self.pos])
                invariant
                    self.wf(),
                    self.input() == input,
                    0 <= i <= d,
                    d + 1 <= self.spec_pos() <= input.len(),
                    digits_end(input, self.spec_pos()) == digits_end(input, d + 1),
                    num_str@ == input.subrange(i, self.spec_pos()),
                    has_decimal_digits == (self.spec_pos() > d + 1),
                decreases input.len() - self.spec_pos(),
            {
                let c = self.chars[self.pos];
                push_char(&mut num_str, c);
                let _ = self.advance_char();
                has_decimal_digits = true;
                proof {
                    assert(num_str@ =~= input.subrange(i, self.spec_pos()));
                }
            }
            proof {
                lemma_digits_end(input, d + 1);
            }

            if !has_decimal_digits {
                return Err(LexerError::new("Expected digits after decimal point", start_location));
            }
        }

        proof {
            lemma_number_literal_shape(input, i, self.spec_pos());
        }
        match parse_number_literal(num_str.as_str()) {
            Some(n) => Ok(n),
            None => {
                // A literal of this shape always parses; this arm is dead.
                let mut m = "Invalid number: ".to_owned();
                m.append(num_str.as_str());
                Err(LexerError { message: m, location: start_location })
            },
        }
    }

    /// Scans one token: skips whitespace, then classifies the next
    /// character. At the end of the input it yields `Eof`, again and again
    /// on every further call.
    pub fn next_token(&mut self) -> (r: Result<(Token, Location), LexerError>)
        requires
            old(self).wf(),
        ensures
            final(self).wf(),
            final(self).input() == old(self).input(),
            spec_next(old(self).input(), old(self).spec_pos()) matches LexStep::Tok {
                t,
                line,
                col,
                end,
            } ==> (r matches Ok(p) && p.0 == t && p.1.line == line && p.1.column == col
                && final(self).spec_pos() == end),
            spec_next(old(self).input(), old(self).spec_pos()) matches LexStep::Fail {
                msg,
                line,
                col,
                end,
            } ==> (r matches Err(e) && e.message@ == msg && e.location.line == line
                && e.location.column == col && final(self).spec_pos() == end),
    {
        self.skip_whitespace();
        proof {
            lemma_ws_end_bounds(old(self).input(), old(self).spec_pos());
        }

        let location = self.location();

        if self.pos >= self.chars.len() {
            return Ok((Token::Eof, location));
        }
        let c = self.chars[self.pos];
        if is_digit(c) {
            match self.read_number() {
                Ok(n) => Ok((Token::Number(n), location)),
                Err(e) => Err(e),
            }
        } else if c == '+' {
            let _ = self.advance_char();
            Ok((Token::Plus, location))
        } else if c == '-' {
            let _ = self.advance_char();
            Ok((Token::Minus, location))
        } else if c == '*' {
            let _ = self.advance_char();
            Ok((Token::Star, location))
        } else if c == '/' {
            let _ = self.advance_char();
            Ok((Token::Slash, location))
        } else if c == '(' {
            let _ = self.advance_char();
            Ok((Token::LeftParen, location))
        } else if c == ')' {
            let _ = self.advance_char();
            Ok((Token::RightParen, location))
        } else {
            let mut m = "Unexpected character: '".to_owned();
            push_char(&mut m, c);
            m.append("'");
            proof {
                assert(m@ =~= "Unexpected character: '"@ + seq![c] + "'"@);
            }
            Err(LexerError { message: m, location })
        }
    }
}

/// The characters from `i` to the end of the literal that starts at `i`
/// have the literal shape the number parser is promised.
proof fn lemma_number_literal_shape(input: Seq<char>, i: int, f: int)
    requires
        0 <= i <= input.len(),
        i < input.len() && is_digit_char(input[i]),
        !decimal_point_error(input, i),
        f == number_end(input, i),
    ensures
        is_number_literal(input.subrange(i, f)),
{
    let d = digits_end(input, i);
    lemma_digits_end(input, i);
    assert(d > i) by {
        assert(digits_end(input, i) == digits_end(input, i + 1));
        lemma_digits_end(input, i + 1);
    }
    let s = input.subrange(i, f);
    if d < input.len() && input[d] == '.' {
        // digits, a point, then one or more digits
        let k = d - i;
        lemma_digits_end(input, d + 1);
        assert(digits_end(input, d + 1) > d + 1) by {
            assert(digits_end(input, d + 1) == digits_end(input, d + 2));
            lemma_digits_end(input, d + 2);
        }
        assert(s[k] == '.');
        assert(all_digits(s.take(k))) by {
            assert(forall|j: int| 0 <= j < k ==> #[trigger] s.take(k)[j] == input[i + j]);
        }
        assert(all_digits(s.skip(k + 1))) by {
            assert(forall|j: int| 0 <= j < s.skip(k + 1).len() ==> #[trigger] s.skip(k + 1)[j]
                == input[d + 1 + j]);
        }
        assert(1 <= k && k < s.len() - 1);
    } else {
        assert(all_digits(s)) by {
            assert(forall|j: int| 0 <= j < s.len() ==> #[trigger] s[j] == input[i + j]);
        }
    }
}

} // verus!

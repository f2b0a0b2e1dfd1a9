use vstd::prelude::*;
use vstd::string::StringExecFns;

use crate::ast::Expr;
use crate::error::{LexerError, Location, ParseError};
use crate::lexer::{spec_next, LexStep, Lexer};
use crate::token::Token;

verus! {

broadcast use crate::lexer::lemma_wf_bounds;

// expression → term (('+' | '-') term)*      left-associative
// term       → unary (('*' | '/') unary)*    left-associative
// unary      → '-' unary | primary
// primary    → NUMBER | '(' expression ')'

/// The parser's whole state, as the grammar functions below see it: the
/// input, the scanner's cursor, and the one token of lookahead with the
/// place it was scanned at.
pub ghost struct PSt {
    pub input: Seq<char>,
    pub pos: int,
    pub cur: Token,
    pub line: int,
    pub col: int,
}

/// The cursor stands inside the input.
pub open spec fn spec_valid(st: PSt) -> bool {
    0 <= st.pos <= st.input.len()
}

/// How much input is left to consume: the characters after the cursor,
/// plus the lookahead token unless it is already the end marker. Scanning
/// a token shrinks it, which is what grounds the grammar's recursion.
pub open spec fn spec_m(st: PSt) -> int {
    st.input.len() - st.pos + (if st.cur is Eof {
        0int
    } else {
        1int
    })
}

/// What replacing the lookahead by the next scanned token yields.
pub ghost enum AdvStep {
    Next { prev: Token, st: PSt },
    Fail { msg: Seq<char>, line: int, col: int },
}

pub open spec fn spec_advance(st: PSt) -> AdvStep {
    match spec_next(st.input, st.pos) {
        LexStep::Tok { t, line, col, end } => AdvStep::Next {
            prev: st.cur,
            st: PSt { input: st.input, pos: end, cur: t, line, col },
        },
        LexStep::Fail { msg, line, col, end } => AdvStep::Fail { msg, line, col },
    }
}

/// What parsing one grammar phrase yields. `Stuck` stands for a recursion
/// step whose guard failed; the scanner always moves past a non-`Eof`
/// token (`lemma_advance_measure`), so the guards hold on every reachable
/// state, and the parser's contracts rule `Stuck` out.
pub ghost enum PRes {
    Good { e: Expr, st: PSt },
    Fail { msg: Seq<char>, line: int, col: int },
    Stuck,
}

/// primary → NUMBER | '(' expression ')'
pub open spec fn spec_primary(st: PSt) -> PRes
    decreases spec_m(st), 0int,
{
    match st.cur {
        Token::Number(n) => match spec_advance(st) {
            AdvStep::Next { prev, st: st1 } => PRes::Good { e: Expr::Number(n), st: st1 },
            AdvStep::Fail { msg, line, col } => PRes::Fail { msg, line, col },
        },
        Token::LeftParen => match spec_advance(st) {
            AdvStep::Next { prev, st: st1 } => if spec_valid(st1) && spec_m(st1) < spec_m(st) {
                match spec_expression(st1) {
                    PRes::Good { e, st: st2 } => match st2.cur {
                        Token::RightParen => match spec_advance(st2) {
                            AdvStep::Next { prev, st: st3 } => PRes::Good { e, st: st3 },
                            AdvStep::Fail { msg, line, col } => PRes::Fail { msg, line, col },
                        },
                        _ => PRes::Fail {
                            msg: "Expected "@ + Token::RightParen.spec_describe() + ", got "@
                                + st2.cur.spec_describe(),
                            line: st2.line,
                            col: st2.col,
                        },
                    },
                    other => other,
                }
            } else {
                PRes::Stuck
            },
            AdvStep::Fail { msg, line, col } => PRes::Fail { msg, line, col },
        },
        _ => PRes::Fail {
            msg: "Expected expression, got "@ + st.cur.spec_describe(),
            line: st.line,
            col: st.col,
        },
    }
}

/// unary → '-' unary | primary
pub open spec fn spec_unary(st: PSt) -> PRes
    decreases spec_m(st), 1int,
{
    if st.cur is Minus {
        match spec_advance(st) {
            AdvStep::Next { prev, st: st1 } => if spec_valid(st1) && spec_m(st1) < spec_m(st) {
                match spec_unary(st1) {
                    PRes::Good { e, st: st2 } => PRes::Good { e: Expr::Neg(Box::new(e)), st: st2 },
                    other => other,
                }
            } else {
                PRes::Stuck
            },
            AdvStep::Fail { msg, line, col } => PRes::Fail { msg, line, col },
        }
    } else {
        spec_primary(st)
    }
}

/// The rest of a term after `left`: zero or more '*' or '/' steps, each
/// folded in on the left.
pub open spec fn spec_term_rest(st: PSt, left: Expr) -> PRes
    decreases spec_m(st), 2int,
{
    if st.cur is Star || st.cur is Slash {
        match spec_advance(st) {
            AdvStep::Next { prev, st: st1 } => if spec_valid(st1) && spec_m(st1) < spec_m(st) {
                match spec_unary(st1) {
                    PRes::Good { e: right, st: st2 } => {
                        let combined = if st.cur is Star {
                            Expr::Mul(Box::new(left), Box::new(right))
                        } else {
                            Expr::Div(Box::new(left), Box::new(right))
                        };
                        if spec_valid(st2) && spec_m(st2) <= spec_m(st1) {
                            spec_term_rest(st2, combined)
                        } else {
                            PRes::Stuck
                        }
                    },
                    other => other,
                }
            } else {
                PRes::Stuck
            },
            AdvStep::Fail { msg, line, col } => PRes::Fail { msg, line, col },
        }
    } else {
        PRes::Good { e: left, st }
    }
}

/// term → unary (('*' | '/') unary)*
pub open spec fn spec_term(st: PSt) -> PRes
    decreases spec_m(st), 3int,
{
    match spec_unary(st) {
        PRes::Good { e, st: st1 } => if spec_valid(st1) && spec_m(st1) <= spec_m(st) {
            spec_term_rest(st1, e)
        } else {
            PRes::Stuck
        },
        other => other,
    }
}

/// The rest of an expression after `left`: zero or more '+' or '-' steps,
/// each folded in on the left.
pub open spec fn spec_expr_rest(st: PSt, left: Expr) -> PRes
    decreases spec_m(st), 4int,
{
    if st.cur is Plus || st.cur is Minus {
        match spec_advance(st) {
            AdvStep::Next { prev, st: st1 } => if spec_valid(st1) && spec_m(st1) < spec_m(st) {
                match spec_term(st1) {
                    PRes::Good { e: right, st: st2 } => {
                        let combined = if st.cur is Plus {
                            Expr::Add(Box::new(left), Box::new(right))
                        } else {
                            Expr::Sub(Box::new(left), Box::new(right))
                        };
                        if spec_valid(st2) && spec_m(st2) <= spec_m(st1) {
                            spec_expr_rest(st2, combined)
                        } else {
                            PRes::Stuck
                        }
                    },
                    other => other,
                }
            } else {
                PRes::Stuck
            },
            AdvStep::Fail { msg, line, col } => PRes::Fail { msg, line, col },
        }
    } else {
        PRes::Good { e: left, st }
    }
}

/// expression → term (('+' | '-') term)*
pub open spec fn spec_expression(st: PSt) -> PRes
    decreases spec_m(st), 5int,
{
    match spec_term(st) {
        PRes::Good { e, st: st1 } => if spec_valid(st1) && spec_m(st1) <= spec_m(st) {
            spec_expr_rest(st1, e)
        } else {
            PRes::Stuck
        },
        other => other,
    }
}

/// One full expression, and then the lookahead must be the end marker: no
/// trailing input is passed over in silence.
pub open spec fn spec_parse(st: PSt) -> PRes {
    match spec_expression(st) {
        PRes::Good { e, st: st1 } => if st1.cur is Eof {
            PRes::Good { e, st: st1 }
        } else {
            PRes::Fail {
                msg: "Expected end of input, got "@ + st1.cur.spec_describe(),
                line: st1.line,
                col: st1.col,
            }
        },
        other => other,
    }
}

/// Whatever parsing accepts, it accepts whole: a tree comes back only
/// with the lookahead standing on the end marker, so no trailing input is
/// ever passed over in silence.
pub proof fn lemma_parse_consumes_all(st: PSt)
    ensures
        spec_parse(st) matches PRes::Good { e, st: st1 } ==> st1.cur is Eof,
{
}

/// Scanning a token never rewinds the cursor, and scanning past a
/// non-`Eof` lookahead strictly shrinks the measure.
proof fn lemma_advance_measure(st: PSt)
    requires
        spec_valid(st),
    ensures
        spec_advance(st) matches AdvStep::Next { prev, st: st2 } ==> (st2.input == st.input
            && spec_valid(st2) && spec_m(st2) <= spec_m(st) && (!(st.cur is Eof) ==> spec_m(st2)
            < spec_m(st))),
        spec_next(st.input, st.pos) matches LexStep::Fail { msg, line, col, end } ==> st.pos <= end
            <= st.input.len(),
{
    crate::lexer::lemma_scan_bounds(st.input, st.pos);
}

/// Wraps a `Lexer`, holding one token of lookahead together with the
/// location it was scanned at.
pub struct Parser {
    lexer: Lexer,
    current: Token,
    current_location: Location,
}

impl Parser {
    /// The state the grammar functions describe.
    pub closed spec fn pst(self) -> PSt {
        PSt {
            input: self.lexer.input(),
            pos: self.lexer.spec_pos(),
            cur: self.current,
            line: self.current_location.line as int,
            col: self.current_location.column as int,
        }
    }

    pub closed spec fn wf(self) -> bool {
        self.lexer.wf()
    }

    /// Primes the lookahead with the first token; a scanning failure on
    /// that first token is handed back as the scanner's own error.
    pub fn new(input: &str) -> (r: Result<Parser, LexerError>)
        requires
            input@.len() < usize::MAX,
        ensures
            r matches Ok(p) ==> (spec_next(input@, 0) matches LexStep::Tok {
                t,
                line,
                col,
                end,
            } && p.wf() && p.pst() == (PSt { input: input@, pos: end, cur: t, line, col })),
            r matches Err(e) ==> (spec_next(input@, 0) matches LexStep::Fail {
                msg,
                line,
                col,
                end,
            } && e.message@ == msg && e.location.line == line && e.location.column == col),
    {
        let mut lexer = Lexer::new(input);
        match lexer.next_token() {
            Ok((t, loc)) => Ok(Parser { lexer, current: t, current_location: loc }),
            Err(e) => Err(e),
        }
    }

    /// Hands back the lookahead and scans the next token in its place; a
    /// scanning failure is lifted into a parse error, location kept.
    fn advance(&mut self) -> (r: Result<Token, ParseError>)
        requires
            old(self).wf(),
        ensures
            final(self).wf(),
            final(self).pst().input == old(self).pst().input,
            spec_m(final(self).pst()) <= spec_m(old(self).pst()),
            spec_advance(old(self).pst()) matches AdvStep::Next { prev, st } ==> (r matches Ok(t)
                && t == prev && final(self).pst() == st),
            spec_advance(old(self).pst()) matches AdvStep::Fail { msg, line, col } ==> (r matches
                Err(e) && e.message@ == msg && e.location.line == line && e.location.column == col),
    {
        proof {
            lemma_advance_measure(old(self).pst());
        }
        let prev = self.current;
        match self.lexer.next_token() {
            Ok((t, loc)) => {
                self.current = t;
                self.current_location = loc;
                Ok(prev)
            },
            Err(e) => Err(ParseError::from_lexer_error(e)),
        }
    }

    /// Whether the lookahead is of the expected kind, any carried number
    /// ignored.
    fn check(&self, expected: &Token) -> (r: bool)
        ensures
            r == self.pst().cur.spec_same_kind(*expected),
    {
        self.current.same_kind(expected)
    }

    /// Consumes the lookahead if it is of the expected kind; otherwise a
    /// parse error naming both kinds, at the lookahead's location.
    fn expect_and_advance(&mut self, expected: Token) -> (r: Result<(), ParseError>)
        requires
            old(self).wf(),
        ensures
            final(self).wf(),
            final(self).pst().input == old(self).pst().input,
            spec_m(final(self).pst()) <= spec_m(old(self).pst()),
            old(self).pst().cur.spec_same_kind(expected) ==> (match spec_advance(old(self).pst()) {
                AdvStep::Next { prev, st } => r is Ok && final(self).pst() == st,
                AdvStep::Fail { msg, line, col } => r matches Err(e) && e.message@ == msg
                    && e.location.line == line && e.location.column == col,
            }),
            !old(self).pst().cur.spec_same_kind(expected) ==> (r matches Err(e) && e.message@
                == "Expected "@ + expected.spec_describe() + ", got "@
                + old(self).pst().cur.spec_describe() && e.location.line == old(self).pst().line
                && e.location.column == old(self).pst().col && *final(self) == *old(self)),
    {
        if self.check(&expected) {
            match self.advance() {
                Ok(_) => Ok(()),
                Err(e) => Err(e),
            }
        } else {
            let mut m = "Expected ".to_owned();
            m.append(expected.describe().as_str());
            m.append(", got ");
            m.append(self.current.describe().as_str());
            Err(ParseError { message: m, location: self.current_location })
        }
    }

    /// Parses one full expression and requires the lookahead to then be
    /// the end marker, exactly as `spec_parse` lays it out.
    pub fn parse(&mut self) -> (r: Result<Expr, ParseError>)
        requires
            old(self).wf(),
        ensures
            final(self).wf(),
            !(spec_parse(old(self).pst()) is Stuck),
            spec_parse(old(self).pst()) matches PRes::Good { e, st } ==> (r matches Ok(x) && x == e
                && final(self).pst() == st),
            spec_parse(old(self).pst()) matches PRes::Fail { msg, line, col } ==> (r matches Err(
                pe,
            ) && pe.message@ == msg && pe.location.line == line && pe.location.column == col),
    {
        let expr = match self.expression() {
            Ok(e) => e,
            Err(e) => return Err(e),
        };
        if !(self.current == Token::Eof) {
            let mut m = "Expected end of input, got ".to_owned();
            m.append(self.current.describe().as_str());
            return Err(ParseError { message: m, location: self.current_location });
        }
        Ok(expr)
    }

    /// expression → term (('+' | '-') term)*
    fn expression(&mut self) -> (r: Result<Expr, ParseError>)
        requires
            old(self).wf(),
        ensures
            final(self).wf(),
            final(self).pst().input == old(self).pst().input,
            spec_m(final(self).pst()) <= spec_m(old(self).pst()),
            !(spec_expression(old(self).pst()) is Stuck),
            spec_expression(old(self).pst()) matches PRes::Good { e, st } ==> (r matches Ok(x) && x
                == e && final(self).pst() == st),
            spec_expression(old(self).pst()) matches PRes::Fail { msg, line, col } ==> (r matches
                Err(pe) && pe.message@ == msg && pe.location.line == line && pe.location.column
                == col),
        decreases spec_m(self.pst()), 7int,
    {
        let ghost st0 = self.pst();
        let mut left = match self.term() {
            Ok(e) => e,
            Err(e) => return Err(e),
        };

        while self.check(&Token::Plus) || self.check(&Token::Minus)
            invariant
                self.wf(),
                st0 == old(self).pst(),
                self.pst().input == st0.input,
                spec_valid(st0),
                spec_m(self.pst()) <= spec_m(st0),
                spec_expression(st0) == spec_expr_rest(self.pst(), left),
            decreases spec_m(self.pst()),
        {
            let ghost stb = self.pst();
            let ghost leftb = left;
            let op = match self.advance() {
                Ok(t) => t,
                Err(e) => return Err(e),
            };
            proof {
                lemma_advance_measure(stb);
            }
            let right = match self.term() {
                Ok(e) => e,
                Err(e) => return Err(e),
            };
            left = if op == Token::Plus {
                Expr::add(left, right)
            } else {
                Expr::sub(left, right)
            };
            proof {
                assert(spec_expr_rest(stb, leftb) == spec_expr_rest(self.pst(), left));
            }
        }
        Ok(left)
    }

    /// term → unary (('*' | '/') unary)*
    fn term(&mut self) -> (r: Result<Expr, ParseError>)
        requires
            old(self).wf(),
        ensures
            final(self).wf(),
            final(self).pst().input == old(self).pst().input,
            spec_m(final(self).pst()) <= spec_m(old(self).pst()),
            !(spec_term(old(self).pst()) is Stuck),
            spec_term(old(self).pst()) matches PRes::Good { e, st } ==> (r matches Ok(x) && x == e
                && final(self).pst() == st),
            spec_term(old(self).pst()) matches PRes::Fail { msg, line, col } ==> (r matches Err(pe)
                && pe.message@ == msg && pe.location.line == line && pe.location.column == col),
        decreases spec_m(self.pst()), 5int,
    {
        let ghost st0 = self.pst();
        let mut left = match self.unary() {
            Ok(e) => e,
            Err(e) => return Err(e),
        };

        while self.check(&Token::Star) || self.check(&Token::Slash)
            invariant
                self.wf(),
                st0 == old(self).pst(),
                self.pst().input == st0.input,
                spec_valid(st0),
                spec_m(self.pst()) <= spec_m(st0),
                spec_term(st0) == spec_term_rest(self.pst(), left),
            decreases spec_m(self.pst()),
        {
            let ghost stb = self.pst();
            let ghost leftb = left;
            let op = match self.advance() {
                Ok(t) => t,
                Err(e) => return Err(e),
            };
            proof {
                lemma_advance_measure(stb);
            }
            let right = match self.unary() {
                Ok(e) => e,
                Err(e) => return Err(e),
            };
            left = if op == Token::Star {
                Expr::mul(left, right)
            } else {
                Expr::div(left, right)
            };
            proof {
                assert(spec_term_rest(stb, leftb) == spec_term_rest(self.pst(), left));
            }
        }
        Ok(left)
    }

    /// unary → '-' unary | primary
    fn unary(&mut self) -> (r: Result<Expr, ParseError>)
        requires
            old(self).wf(),
        ensures
            final(self).wf(),
            final(self).pst().input == old(self).pst().input,
            spec_m(final(self).pst()) <= spec_m(old(self).pst()),
            !(spec_unary(old(self).pst()) is Stuck),
            spec_unary(old(self).pst()) matches PRes::Good { e, st } ==> (r matches Ok(x) && x == e
                && final(self).pst() == st),
            spec_unary(old(self).pst()) matches PRes::Fail { msg, line, col } ==> (r matches Err(
                pe,
            ) && pe.message@ == msg && pe.location.line == line && pe.location.column == col),
        decreases spec_m(self.pst()), 3int,
    {
        let ghost st0 = self.pst();
        if self.current == Token::Minus {
            match self.advance() {
                Ok(_) => (),
                Err(e) => return Err(e),
            };
            proof {
                lemma_advance_measure(st0);
            }
            let e = match self.unary() {
                Ok(e) => e,
                Err(e) => return Err(e),
            };
            Ok(Expr::neg(e))
        } else {
            self.primary()
        }
    }

    /// primary → NUMBER | '(' expression ')'
    fn primary(&mut self) -> (r: Result<Expr, ParseError>)
        requires
            old(self).wf(),
        ensures
            final(self).wf(),
            final(self).pst().input == old(self).pst().input,
            spec_m(final(self).pst()) <= spec_m(old(self).pst()),
            !(spec_primary(old(self).pst()) is Stuck),
            spec_primary(old(self).pst()) matches PRes::Good { e, st } ==> (r matches Ok(x) && x
                == e && final(self).pst() == st),
            spec_primary(old(self).pst()) matches PRes::Fail { msg, line, col } ==> (r matches Err(
                pe,
            ) && pe.message@ == msg && pe.location.line == line && pe.location.column == col),
        decreases spec_m(self.pst()), 1int,
    {
        let ghost st0 = self.pst();
        match self.current {
            Token::Number(n) => {
                match self.advance() {
                    Ok(_) => (),
                    Err(e) => return Err(e),
                };
                Ok(Expr::number(n))
            },
            Token::LeftParen => {
                match self.advance() {
                    Ok(_) => (),
                    Err(e) => return Err(e),
                };
                proof {
                    lemma_advance_measure(st0);
                }
                let e = match self.expression() {
                    Ok(e) => e,
                    Err(e) => return Err(e),
                };
                match self.expect_and_advance(Token::RightParen) {
                    Ok(_) => (),
                    Err(e) => return Err(e),
                };
                Ok(e)
            },
            _ => {
                let mut m = "Expected expression, got ".to_owned();
                m.append(self.current.describe().as_str());
                Err(ParseError { message: m, location: self.current_location })
            },
        }
    }
}

} // verus!

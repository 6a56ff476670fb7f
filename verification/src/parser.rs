//! The parser: token stream to AST.
//!
//! The grammar is the off-side-rule surface of the language: a program is
//! a sequence of imports, function definitions and class definitions; a
//! suite is either one simple statement on the same line or a
//! `NEWLINE INDENT statement+ DEDENT` block.  Expression precedence, from
//! loosest to tightest: `or`, `and`, comparison (non-chaining), additive,
//! multiplicative, then call and index on primaries.

use vstd::prelude::*;

use crate::ast;
use crate::error::CompilationError;
use crate::lexer::MyLexer;
use crate::location::Location;
use crate::text::clone_bytes;
use crate::token::{SpannedToken, Token};

verus! {

broadcast use vstd::std_specs::vec::axiom_spec_len;

/// Relies on core::fmt (through the format macro) to render the
/// offending token into a message; nothing is claimed of the result.
#[verifier::external_body]
fn unexpected_message(token: &Token, expected: &str) -> String {
    format!("Got {:?}, expected {} ", token, expected)
}

/// Relies on core::fmt (through the format macro); nothing is claimed of
/// the result.
#[verifier::external_body]
fn eof_message(expected: &str) -> String {
    format!("Unexpected end of file, expected: {}", expected)
}

/// Whether two tokens are the same punctuation or keyword; payload
/// tokens never match here.
pub open spec fn same_kind_of(a: Token, b: Token) -> bool {
    match (a, b) {
        (Token::Indent, Token::Indent) => true,
        (Token::Dedent, Token::Dedent) => true,
        (Token::KeywordAnd, Token::KeywordAnd) => true,
        (Token::KeywordBreak, Token::KeywordBreak) => true,
        (Token::KeywordClass, Token::KeywordClass) => true,
        (Token::KeywordContinue, Token::KeywordContinue) => true,
        (Token::KeywordDef, Token::KeywordDef) => true,
        (Token::KeywordElse, Token::KeywordElse) => true,
        (Token::KeywordFor, Token::KeywordFor) => true,
        (Token::KeywordFrom, Token::KeywordFrom) => true,
        (Token::KeywordIf, Token::KeywordIf) => true,
        (Token::KeywordIn, Token::KeywordIn) => true,
        (Token::KeywordImport, Token::KeywordImport) => true,
        (Token::KeywordOr, Token::KeywordOr) => true,
        (Token::KeywordPass, Token::KeywordPass) => true,
        (Token::KeywordReturn, Token::KeywordReturn) => true,
        (Token::KeywordWhile, Token::KeywordWhile) => true,
        (Token::Colon, Token::Colon) => true,
        (Token::OpeningParenthesis, Token::OpeningParenthesis) => true,
        (Token::ClosingParenthesis, Token::ClosingParenthesis) => true,
        (Token::OpeningBrace, Token::OpeningBrace) => true,
        (Token::ClosingBrace, Token::ClosingBrace) => true,
        (Token::OpeningBracket, Token::OpeningBracket) => true,
        (Token::ClosingBracket, Token::ClosingBracket) => true,
        (Token::Comma, Token::Comma) => true,
        (Token::Plus, Token::Plus) => true,
        (Token::Minus, Token::Minus) => true,
        (Token::Asterix, Token::Asterix) => true,
        (Token::Slash, Token::Slash) => true,
        (Token::Less, Token::Less) => true,
        (Token::Greater, Token::Greater) => true,
        (Token::LessEqual, Token::LessEqual) => true,
        (Token::GreaterEqual, Token::GreaterEqual) => true,
        (Token::EqualEqual, Token::EqualEqual) => true,
        (Token::NotEqual, Token::NotEqual) => true,
        (Token::Equal, Token::Equal) => true,
        (Token::Arrow, Token::Arrow) => true,
        (Token::NewLine, Token::NewLine) => true,
        _ => false,
    }
}

/// Whether two tokens are the same punctuation or keyword; payload
/// tokens never match here.
fn same_kind(a: &Token, b: &Token) -> (r: bool)
    ensures
        r == same_kind_of(*a, *b),
{
    match (a, b) {
        (Token::Indent, Token::Indent) => true,
        (Token::Dedent, Token::Dedent) => true,
        (Token::KeywordAnd, Token::KeywordAnd) => true,
        (Token::KeywordBreak, Token::KeywordBreak) => true,
        (Token::KeywordClass, Token::KeywordClass) => true,
        (Token::KeywordContinue, Token::KeywordContinue) => true,
        (Token::KeywordDef, Token::KeywordDef) => true,
        (Token::KeywordElse, Token::KeywordElse) => true,
        (Token::KeywordFor, Token::KeywordFor) => true,
        (Token::KeywordFrom, Token::KeywordFrom) => true,
        (Token::KeywordIf, Token::KeywordIf) => true,
        (Token::KeywordIn, Token::KeywordIn) => true,
        (Token::KeywordImport, Token::KeywordImport) => true,
        (Token::KeywordOr, Token::KeywordOr) => true,
        (Token::KeywordPass, Token::KeywordPass) => true,
        (Token::KeywordReturn, Token::KeywordReturn) => true,
        (Token::KeywordWhile, Token::KeywordWhile) => true,
        (Token::Colon, Token::Colon) => true,
        (Token::OpeningParenthesis, Token::OpeningParenthesis) => true,
        (Token::ClosingParenthesis, Token::ClosingParenthesis) => true,
        (Token::OpeningBrace, Token::OpeningBrace) => true,
        (Token::ClosingBrace, Token::ClosingBrace) => true,
        (Token::OpeningBracket, Token::OpeningBracket) => true,
        (Token::ClosingBracket, Token::ClosingBracket) => true,
        (Token::Comma, Token::Comma) => true,
        (Token::Plus, Token::Plus) => true,
        (Token::Minus, Token::Minus) => true,
        (Token::Asterix, Token::Asterix) => true,
        (Token::Slash, Token::Slash) => true,
        (Token::Less, Token::Less) => true,
        (Token::Greater, Token::Greater) => true,
        (Token::LessEqual, Token::LessEqual) => true,
        (Token::GreaterEqual, Token::GreaterEqual) => true,
        (Token::EqualEqual, Token::EqualEqual) => true,
        (Token::NotEqual, Token::NotEqual) => true,
        (Token::Equal, Token::Equal) => true,
        (Token::Arrow, Token::Arrow) => true,
        (Token::NewLine, Token::NewLine) => true,
        _ => false,
    }
}

/// A recursive-descent parser over the token stream.
struct Parser {
    tokens: Vec<SpannedToken>,
    pos: usize,
}

impl Parser {
    spec fn wf(&self) -> bool {
        self.pos <= self.tokens@.len() <= usize::MAX
    }

    /// The step relation every parsing function obeys: the tokens are
    /// untouched and the cursor only moves forward.
    spec fn advances(pre: Parser, post: Parser) -> bool {
        &&& post.tokens@ == pre.tokens@
        &&& pre.pos <= post.pos
        &&& post.wf()
    }

    fn done(&self) -> (r: bool)
        requires
            self.wf(),
        ensures
            r == (self.pos == self.tokens@.len()),
    {
        self.pos >= self.tokens.len()
    }

    /// The location reported for an unexpected end of file.
    fn eof_location(&self) -> Location {
        if self.tokens.len() == 0 {
            Location { row: 1, column: 1 }
        } else {
            self.tokens[self.tokens.len() - 1].end
        }
    }

    fn eof_error(&self, expected: &str) -> CompilationError {
        CompilationError::new(&self.eof_location(), eof_message(expected))
    }

    fn unexpected_error(&self, expected: &str) -> CompilationError
        requires
            self.wf(),
            self.pos < self.tokens@.len(),
    {
        CompilationError::new(
            &self.tokens[self.pos].start,
            unexpected_message(&self.tokens[self.pos].token, expected),
        )
    }

    /// Whether the cursor stands on the given punctuation or keyword.
    fn at(&self, kind: &Token) -> (r: bool)
        requires
            self.wf(),
        ensures
            r == (self.pos < self.tokens@.len() && same_kind_of(
                self.tokens@[self.pos as int].token,
                *kind,
            )),
    {
        if self.pos < self.tokens.len() {
            same_kind(&self.tokens[self.pos].token, kind)
        } else {
            false
        }
    }

    /// Consume the given punctuation or keyword, or fail.
    fn expect(&mut self, kind: &Token, expected: &str) -> (r: Result<(), CompilationError>)
        requires
            old(self).wf(),
        ensures
            Parser::advances(*old(self), *final(self)),
            r is Ok ==> final(self).pos == old(self).pos + 1,
            r is Err ==> final(self).pos == old(self).pos,
    {
        if self.pos < self.tokens.len() {
            if same_kind(&self.tokens[self.pos].token, kind) {
                self.pos = self.pos + 1;
                Ok(())
            } else {
                Err(self.unexpected_error(expected))
            }
        } else {
            Err(self.eof_error(expected))
        }
    }

    /// Consume an identifier and hand back its name.
    fn expect_identifier(&mut self) -> (r: Result<Vec<u8>, CompilationError>)
        requires
            old(self).wf(),
        ensures
            Parser::advances(*old(self), *final(self)),
            r is Ok ==> final(self).pos == old(self).pos + 1,
            r is Err ==> final(self).pos == old(self).pos,
    {
        if self.pos >= self.tokens.len() {
            return Err(self.eof_error("an identifier"));
        }
        let name: Option<Vec<u8>> = match &self.tokens[self.pos].token {
            Token::Identifier { value } => Some(clone_bytes(value)),
            _ => None,
        };
        match name {
            Some(value) => {
                self.pos = self.pos + 1;
                Ok(value)
            },
            None => Err(self.unexpected_error("an identifier")),
        }
    }

    /// The location of the token under the cursor.
    fn here(&self) -> (r: Location)
        requires
            self.wf(),
            self.pos < self.tokens@.len(),
    {
        self.tokens[self.pos].start
    }

    /// Consume the end of a simple statement: a newline, or the end of
    /// the input.
    fn end_of_line(&mut self) -> (r: Result<(), CompilationError>)
        requires
            old(self).wf(),
        ensures
            Parser::advances(*old(self), *final(self)),
    {
        if self.pos >= self.tokens.len() {
            return Ok(());
        }
        self.expect(&Token::NewLine, "a newline")
    }
}

} // verus!

verus! {

/// The comparison operator denoted by a token, if any.
fn comparison_op(t: &Token) -> Option<ast::Comparison> {
    match t {
        Token::Less => Some(ast::Comparison::Lt),
        Token::Greater => Some(ast::Comparison::Gt),
        Token::LessEqual => Some(ast::Comparison::Le),
        Token::GreaterEqual => Some(ast::Comparison::Ge),
        Token::EqualEqual => Some(ast::Comparison::Equal),
        Token::NotEqual => Some(ast::Comparison::NotEqual),
        _ => None,
    }
}

impl Parser {
    /// Consume a number literal, when one is under the cursor.
    fn take_number(&mut self) -> (r: Option<i32>)
        requires
            old(self).wf(),
        ensures
            Parser::advances(*old(self), *final(self)),
            r is Some ==> final(self).pos == old(self).pos + 1,
            r is None ==> final(self).pos == old(self).pos,
    {
        if self.pos >= self.tokens.len() {
            return None;
        }
        let v: Option<i32> = match &self.tokens[self.pos].token {
            Token::Number { value } => Some(*value),
            _ => None,
        };
        if v.is_some() {
            self.pos = self.pos + 1;
        }
        v
    }

    /// Consume a float literal, when one is under the cursor.
    fn take_float(&mut self) -> (r: Option<u64>)
        requires
            old(self).wf(),
        ensures
            Parser::advances(*old(self), *final(self)),
            r is Some ==> final(self).pos == old(self).pos + 1,
            r is None ==> final(self).pos == old(self).pos,
    {
        if self.pos >= self.tokens.len() {
            return None;
        }
        let v: Option<u64> = match &self.tokens[self.pos].token {
            Token::Float { bits } => Some(*bits),
            _ => None,
        };
        if v.is_some() {
            self.pos = self.pos + 1;
        }
        v
    }

    /// Consume a string literal, when one is under the cursor.
    fn take_str(&mut self) -> (r: Option<Vec<u8>>)
        requires
            old(self).wf(),
        ensures
            Parser::advances(*old(self), *final(self)),
            r is Some ==> final(self).pos == old(self).pos + 1,
            r is None ==> final(self).pos == old(self).pos,
    {
        if self.pos >= self.tokens.len() {
            return None;
        }
        let v: Option<Vec<u8>> = match &self.tokens[self.pos].token {
            Token::Str { value } => Some(clone_bytes(value)),
            _ => None,
        };
        if v.is_some() {
            self.pos = self.pos + 1;
        }
        v
    }

    /// Consume an identifier, when one is under the cursor.
    fn take_identifier(&mut self) -> (r: Option<Vec<u8>>)
        requires
            old(self).wf(),
        ensures
            Parser::advances(*old(self), *final(self)),
            r is Some ==> final(self).pos == old(self).pos + 1,
            r is None ==> final(self).pos == old(self).pos,
    {
        if self.pos >= self.tokens.len() {
            return None;
        }
        let v: Option<Vec<u8>> = match &self.tokens[self.pos].token {
            Token::Identifier { value } => Some(clone_bytes(value)),
            _ => None,
        };
        if v.is_some() {
            self.pos = self.pos + 1;
        }
        v
    }

    /// primary: literal, identifier, parenthesized expression or list
    /// literal, followed by any number of call and index suffixes.
    fn parse_primary(&mut self) -> (r: Result<ast::Expression, CompilationError>)
        requires
            old(self).wf(),
        ensures
            Parser::advances(*old(self), *final(self)),
            r is Ok ==> old(self).pos < final(self).pos,
        decreases self.tokens@.len() - self.pos, 0int,
    {
        if self.pos >= self.tokens.len() {
            return Err(self.eof_error("an expression"));
        }
        let location = self.here();
        let mut base: ast::Expression;
        if let Some(value) = self.take_number() {
            base = ast::Expression { location, kind: ast::ExpressionType::Number(value) };
        } else if let Some(bits) = self.take_float() {
            base = ast::Expression { location, kind: ast::ExpressionType::Float(bits) };
        } else if let Some(value) = self.take_str() {
            base = ast::Expression { location, kind: ast::ExpressionType::Str(value) };
        } else if let Some(value) = self.take_identifier() {
            base = ast::Expression { location, kind: ast::ExpressionType::Identifier(value) };
        } else if self.at(&Token::OpeningParenthesis) {
            self.pos = self.pos + 1;
            let inner = match self.parse_expression() {
                Ok(e) => e,
                Err(e) => {
                    return Err(e);
                },
            };
            match self.expect(&Token::ClosingParenthesis, "')'") {
                Ok(()) => {},
                Err(e) => {
                    return Err(e);
                },
            }
            base = inner;
        } else if self.at(&Token::OpeningBracket) {
            self.pos = self.pos + 1;
            let mut elements: Vec<ast::Expression> = Vec::new();
            if self.at(&Token::ClosingBracket) {
                self.pos = self.pos + 1;
            } else {
                let first = match self.parse_expression() {
                    Ok(e) => e,
                    Err(e) => {
                        return Err(e);
                    },
                };
                elements.push(first);
                while self.at(&Token::Comma)
                    invariant
                        self.wf(),
                        Parser::advances(*old(self), *self),
                        old(self).pos < self.pos,
                    decreases self.tokens@.len() - self.pos,
                {
                    self.pos = self.pos + 1;
                    let next = match self.parse_expression() {
                        Ok(e) => e,
                        Err(e) => {
                            return Err(e);
                        },
                    };
                    elements.push(next);
                }
                match self.expect(&Token::ClosingBracket, "']'") {
                    Ok(()) => {},
                    Err(e) => {
                        return Err(e);
                    },
                }
            }
            base = ast::Expression { location, kind: ast::ExpressionType::List { elements } };
        } else {
            return Err(self.unexpected_error("an expression"));
        }
        while self.at(&Token::OpeningParenthesis) || self.at(&Token::OpeningBracket)
            invariant
                self.wf(),
                Parser::advances(*old(self), *self),
                old(self).pos < self.pos,
            decreases self.tokens@.len() - self.pos,
        {
            let ghost outer_pos = self.pos;
            if self.at(&Token::OpeningParenthesis) {
                self.pos = self.pos + 1;
                let mut arguments: Vec<ast::Expression> = Vec::new();
                if self.at(&Token::ClosingParenthesis) {
                    self.pos = self.pos + 1;
                } else {
                    let first = match self.parse_expression() {
                        Ok(e) => e,
                        Err(e) => {
                            return Err(e);
                        },
                    };
                    arguments.push(first);
                    while self.at(&Token::Comma)
                        invariant
                            self.wf(),
                            Parser::advances(*old(self), *self),
                            old(self).pos < self.pos,
                            outer_pos < self.pos,
                        decreases self.tokens@.len() - self.pos,
                    {
                        self.pos = self.pos + 1;
                        let next = match self.parse_expression() {
                            Ok(e) => e,
                            Err(e) => {
                                return Err(e);
                            },
                        };
                        arguments.push(next);
                    }
                    match self.expect(&Token::ClosingParenthesis, "')'") {
                        Ok(()) => {},
                        Err(e) => {
                            return Err(e);
                        },
                    }
                }
                let callee_location = base.location;
                base = ast::Expression {
                    location: callee_location,
                    kind: ast::ExpressionType::Call { callee: Box::new(base), arguments },
                };
            } else {
                self.pos = self.pos + 1;
                let index = match self.parse_expression() {
                    Ok(e) => e,
                    Err(e) => {
                        return Err(e);
                    },
                };
                match self.expect(&Token::ClosingBracket, "']'") {
                    Ok(()) => {},
                    Err(e) => {
                        return Err(e);
                    },
                }
                let base_location = base.location;
                base = ast::Expression {
                    location: base_location,
                    kind: ast::ExpressionType::Indexed {
                        base: Box::new(base),
                        index: Box::new(index),
                    },
                };
            }
        }
        Ok(base)
    }

    /// term: primaries joined by `*` and `/`, left-associative.
    fn parse_term(&mut self) -> (r: Result<ast::Expression, CompilationError>)
        requires
            old(self).wf(),
        ensures
            Parser::advances(*old(self), *final(self)),
            r is Ok ==> old(self).pos < final(self).pos,
        decreases self.tokens@.len() - self.pos, 1int,
    {
        let mut a = match self.parse_primary() {
            Ok(e) => e,
            Err(e) => {
                return Err(e);
            },
        };
        while self.at(&Token::Asterix) || self.at(&Token::Slash)
            invariant
                self.wf(),
                Parser::advances(*old(self), *self),
                old(self).pos < self.pos,
            decreases self.tokens@.len() - self.pos,
        {
            let op = if self.at(&Token::Asterix) {
                ast::BinaryOperation::Mul
            } else {
                ast::BinaryOperation::Div
            };
            self.pos = self.pos + 1;
            let b = match self.parse_primary() {
                Ok(e) => e,
                Err(e) => {
                    return Err(e);
                },
            };
            let location = a.location;
            a = ast::Expression {
                location,
                kind: ast::ExpressionType::BinaryOperation {
                    a: Box::new(a),
                    op,
                    b: Box::new(b),
                },
            };
        }
        Ok(a)
    }

    /// additive expression: terms joined by `+` and `-`.
    fn parse_arith(&mut self) -> (r: Result<ast::Expression, CompilationError>)
        requires
            old(self).wf(),
        ensures
            Parser::advances(*old(self), *final(self)),
            r is Ok ==> old(self).pos < final(self).pos,
        decreases self.tokens@.len() - self.pos, 2int,
    {
        let mut a = match self.parse_term() {
            Ok(e) => e,
            Err(e) => {
                return Err(e);
            },
        };
        while self.at(&Token::Plus) || self.at(&Token::Minus)
            invariant
                self.wf(),
                Parser::advances(*old(self), *self),
                old(self).pos < self.pos,
            decreases self.tokens@.len() - self.pos,
        {
            let op = if self.at(&Token::Plus) {
                ast::BinaryOperation::Add
            } else {
                ast::BinaryOperation::Sub
            };
            self.pos = self.pos + 1;
            let b = match self.parse_term() {
                Ok(e) => e,
                Err(e) => {
                    return Err(e);
                },
            };
            let location = a.location;
            a = ast::Expression {
                location,
                kind: ast::ExpressionType::BinaryOperation {
                    a: Box::new(a),
                    op,
                    b: Box::new(b),
                },
            };
        }
        Ok(a)
    }

    /// comparison: two additive expressions joined by one comparison
    /// operator; comparisons do not chain.
    fn parse_comparison(&mut self) -> (r: Result<ast::Expression, CompilationError>)
        requires
            old(self).wf(),
        ensures
            Parser::advances(*old(self), *final(self)),
            r is Ok ==> old(self).pos < final(self).pos,
        decreases self.tokens@.len() - self.pos, 3int,
    {
        let a = match self.parse_arith() {
            Ok(e) => e,
            Err(e) => {
                return Err(e);
            },
        };
        if self.pos < self.tokens.len() {
            let op: Option<ast::Comparison> = comparison_op(&self.tokens[self.pos].token);
            if let Some(op) = op {
                self.pos = self.pos + 1;
                let b = match self.parse_arith() {
                    Ok(e) => e,
                    Err(e) => {
                        return Err(e);
                    },
                };
                let location = a.location;
                return Ok(
                    ast::Expression {
                        location,
                        kind: ast::ExpressionType::Comparison {
                            a: Box::new(a),
                            op,
                            b: Box::new(b),
                        },
                    },
                );
            }
        }
        Ok(a)
    }

    /// `and` expression.
    fn parse_and_test(&mut self) -> (r: Result<ast::Expression, CompilationError>)
        requires
            old(self).wf(),
        ensures
            Parser::advances(*old(self), *final(self)),
            r is Ok ==> old(self).pos < final(self).pos,
        decreases self.tokens@.len() - self.pos, 4int,
    {
        let mut a = match self.parse_comparison() {
            Ok(e) => e,
            Err(e) => {
                return Err(e);
            },
        };
        while self.at(&Token::KeywordAnd)
            invariant
                self.wf(),
                Parser::advances(*old(self), *self),
                old(self).pos < self.pos,
            decreases self.tokens@.len() - self.pos,
        {
            self.pos = self.pos + 1;
            let b = match self.parse_comparison() {
                Ok(e) => e,
                Err(e) => {
                    return Err(e);
                },
            };
            let location = a.location;
            a = ast::Expression {
                location,
                kind: ast::ExpressionType::BoolOp {
                    a: Box::new(a),
                    op: ast::BooleanOperator::And,
                    b: Box::new(b),
                },
            };
        }
        Ok(a)
    }

    /// `or` expression, the loosest-binding form.
    fn parse_expression(&mut self) -> (r: Result<ast::Expression, CompilationError>)
        requires
            old(self).wf(),
        ensures
            Parser::advances(*old(self), *final(self)),
            r is Ok ==> old(self).pos < final(self).pos,
        decreases self.tokens@.len() - self.pos, 5int,
    {
        let mut a = match self.parse_and_test() {
            Ok(e) => e,
            Err(e) => {
                return Err(e);
            },
        };
        while self.at(&Token::KeywordOr)
            invariant
                self.wf(),
                Parser::advances(*old(self), *self),
                old(self).pos < self.pos,
            decreases self.tokens@.len() - self.pos,
        {
            self.pos = self.pos + 1;
            let b = match self.parse_and_test() {
                Ok(e) => e,
                Err(e) => {
                    return Err(e);
                },
            };
            let location = a.location;
            a = ast::Expression {
                location,
                kind: ast::ExpressionType::BoolOp {
                    a: Box::new(a),
                    op: ast::BooleanOperator::Or,
                    b: Box::new(b),
                },
            };
        }
        Ok(a)
    }
}

} // verus!

verus! {

impl Parser {
    /// simple statement: return, break, continue, pass, assignment or
    /// expression, each ended by a newline (or the end of input).
    fn parse_simple_statement(&mut self) -> (r: Result<ast::Statement, CompilationError>)
        requires
            old(self).wf(),
        ensures
            Parser::advances(*old(self), *final(self)),
            r is Ok ==> old(self).pos < final(self).pos,
        decreases self.tokens@.len() - self.pos, 0int,
    {
        if self.at(&Token::KeywordReturn) {
            self.pos = self.pos + 1;
            let value = match self.parse_expression() {
                Ok(e) => e,
                Err(e) => {
                    return Err(e);
                },
            };
            match self.end_of_line() {
                Ok(()) => {},
                Err(e) => {
                    return Err(e);
                },
            }
            return Ok(ast::Statement::Return(value));
        }
        if self.at(&Token::KeywordBreak) {
            let location = self.here();
            self.pos = self.pos + 1;
            match self.end_of_line() {
                Ok(()) => {},
                Err(e) => {
                    return Err(e);
                },
            }
            return Ok(ast::Statement::Break(location));
        }
        if self.at(&Token::KeywordContinue) {
            let location = self.here();
            self.pos = self.pos + 1;
            match self.end_of_line() {
                Ok(()) => {},
                Err(e) => {
                    return Err(e);
                },
            }
            return Ok(ast::Statement::Continue(location));
        }
        if self.at(&Token::KeywordPass) {
            let location = self.here();
            self.pos = self.pos + 1;
            match self.end_of_line() {
                Ok(()) => {},
                Err(e) => {
                    return Err(e);
                },
            }
            return Ok(ast::Statement::Pass(location));
        }
        // An identifier directly followed by `=` starts an assignment.
        let is_assignment = if self.pos < self.tokens.len() && self.pos + 1 < self.tokens.len() {
            let first_is_name = match &self.tokens[self.pos].token {
                Token::Identifier { .. } => true,
                _ => false,
            };
            first_is_name && same_kind(&self.tokens[self.pos + 1].token, &Token::Equal)
        } else {
            false
        };
        if is_assignment {
            let target = match self.expect_identifier() {
                Ok(v) => v,
                Err(e) => {
                    return Err(e);
                },
            };
            self.pos = self.pos + 1;
            let value = match self.parse_expression() {
                Ok(e) => e,
                Err(e) => {
                    return Err(e);
                },
            };
            match self.end_of_line() {
                Ok(()) => {},
                Err(e) => {
                    return Err(e);
                },
            }
            return Ok(ast::Statement::Assignment { target, value: Box::new(value) });
        }
        let expression = match self.parse_expression() {
            Ok(e) => e,
            Err(e) => {
                return Err(e);
            },
        };
        match self.end_of_line() {
            Ok(()) => {},
            Err(e) => {
                return Err(e);
            },
        }
        Ok(ast::Statement::Expression(expression))
    }

    /// statement: `if`, `while` or `for` with their suites, or a simple
    /// statement.
    fn parse_statement(&mut self) -> (r: Result<ast::Statement, CompilationError>)
        requires
            old(self).wf(),
        ensures
            Parser::advances(*old(self), *final(self)),
            r is Ok ==> old(self).pos < final(self).pos,
        decreases self.tokens@.len() - self.pos, 1int,
    {
        if self.at(&Token::KeywordIf) {
            self.pos = self.pos + 1;
            let condition = match self.parse_expression() {
                Ok(e) => e,
                Err(e) => {
                    return Err(e);
                },
            };
            match self.expect(&Token::Colon, "':'") {
                Ok(()) => {},
                Err(e) => {
                    return Err(e);
                },
            }
            let suite = match self.parse_suite() {
                Ok(s) => s,
                Err(e) => {
                    return Err(e);
                },
            };
            let mut else_suite: Vec<ast::Statement> = Vec::new();
            if self.at(&Token::KeywordElse) {
                self.pos = self.pos + 1;
                match self.expect(&Token::Colon, "':'") {
                    Ok(()) => {},
                    Err(e) => {
                        return Err(e);
                    },
                }
                else_suite = match self.parse_suite() {
                    Ok(s) => s,
                    Err(e) => {
                        return Err(e);
                    },
                };
            }
            return Ok(
                ast::Statement::If { condition: Box::new(condition), suite, else_suite },
            );
        }
        if self.at(&Token::KeywordWhile) {
            self.pos = self.pos + 1;
            let condition = match self.parse_expression() {
                Ok(e) => e,
                Err(e) => {
                    return Err(e);
                },
            };
            match self.expect(&Token::Colon, "':'") {
                Ok(()) => {},
                Err(e) => {
                    return Err(e);
                },
            }
            let suite = match self.parse_suite() {
                Ok(s) => s,
                Err(e) => {
                    return Err(e);
                },
            };
            return Ok(ast::Statement::While { condition: Box::new(condition), suite });
        }
        if self.at(&Token::KeywordFor) {
            self.pos = self.pos + 1;
            let target = match self.expect_identifier() {
                Ok(v) => v,
                Err(e) => {
                    return Err(e);
                },
            };
            match self.expect(&Token::KeywordIn, "'in'") {
                Ok(()) => {},
                Err(e) => {
                    return Err(e);
                },
            }
            let iter = match self.parse_expression() {
                Ok(e) => e,
                Err(e) => {
                    return Err(e);
                },
            };
            match self.expect(&Token::Colon, "':'") {
                Ok(()) => {},
                Err(e) => {
                    return Err(e);
                },
            }
            let suite = match self.parse_suite() {
                Ok(s) => s,
                Err(e) => {
                    return Err(e);
                },
            };
            return Ok(ast::Statement::For { target, iter: Box::new(iter), suite });
        }
        self.parse_simple_statement()
    }

    /// suite: one simple statement on the same line, or a newline followed
    /// by an indented block of statements.
    fn parse_suite(&mut self) -> (r: Result<Vec<ast::Statement>, CompilationError>)
        requires
            old(self).wf(),
        ensures
            Parser::advances(*old(self), *final(self)),
            r is Ok ==> old(self).pos < final(self).pos,
        decreases self.tokens@.len() - self.pos, 2int,
    {
        if self.at(&Token::NewLine) {
            self.pos = self.pos + 1;
            match self.expect(&Token::Indent, "an indented block") {
                Ok(()) => {},
                Err(e) => {
                    return Err(e);
                },
            }
            let mut statements: Vec<ast::Statement> = Vec::new();
            let first = match self.parse_statement() {
                Ok(s) => s,
                Err(e) => {
                    return Err(e);
                },
            };
            statements.push(first);
            while !self.at(&Token::Dedent)
                invariant
                    self.wf(),
                    Parser::advances(*old(self), *self),
                    old(self).pos < self.pos,
                decreases self.tokens@.len() - self.pos,
            {
                if self.done() {
                    return Err(self.eof_error("a statement or a dedent"));
                }
                let statement = match self.parse_statement() {
                    Ok(s) => s,
                    Err(e) => {
                        return Err(e);
                    },
                };
                statements.push(statement);
            }
            self.pos = self.pos + 1;
            Ok(statements)
        } else {
            let statement = match self.parse_simple_statement() {
                Ok(s) => s,
                Err(e) => {
                    return Err(e);
                },
            };
            let mut statements: Vec<ast::Statement> = Vec::new();
            statements.push(statement);
            Ok(statements)
        }
    }

    /// function definition: `def NAME ( params? ) (-> type)? : suite`.
    fn parse_function_def(&mut self) -> (r: Result<ast::FunctionDef, CompilationError>)
        requires
            old(self).wf(),
        ensures
            Parser::advances(*old(self), *final(self)),
            r is Ok ==> old(self).pos < final(self).pos,
        decreases self.tokens@.len() - self.pos, 0int,
    {
        match self.expect(&Token::KeywordDef, "'def'") {
            Ok(()) => {},
            Err(e) => {
                return Err(e);
            },
        }
        let name = match self.expect_identifier() {
            Ok(v) => v,
            Err(e) => {
                return Err(e);
            },
        };
        match self.expect(&Token::OpeningParenthesis, "'('") {
            Ok(()) => {},
            Err(e) => {
                return Err(e);
            },
        }
        let mut parameters: Vec<ast::Parameter> = Vec::new();
        if !self.at(&Token::ClosingParenthesis) {
            let ghost entry = self.pos;
            loop
                invariant
                    self.wf(),
                    Parser::advances(*old(self), *self),
                    old(self).pos < self.pos,
                decreases self.tokens@.len() - self.pos,
            {
                let pname = match self.expect_identifier() {
                    Ok(v) => v,
                    Err(e) => {
                        return Err(e);
                    },
                };
                match self.expect(&Token::Colon, "':'") {
                    Ok(()) => {},
                    Err(e) => {
                        return Err(e);
                    },
                }
                let ptyp = match self.parse_expression() {
                    Ok(e) => e,
                    Err(e) => {
                        return Err(e);
                    },
                };
                parameters.push(ast::Parameter { name: pname, typ: ptyp });
                if self.at(&Token::Comma) {
                    self.pos = self.pos + 1;
                } else {
                    break;
                }
            }
        }
        match self.expect(&Token::ClosingParenthesis, "')'") {
            Ok(()) => {},
            Err(e) => {
                return Err(e);
            },
        }
        let result: Option<ast::Expression> = if self.at(&Token::Arrow) {
            self.pos = self.pos + 1;
            match self.parse_expression() {
                Ok(e) => Some(e),
                Err(e) => {
                    return Err(e);
                },
            }
        } else {
            None
        };
        match self.expect(&Token::Colon, "':'") {
            Ok(()) => {},
            Err(e) => {
                return Err(e);
            },
        }
        let body = match self.parse_suite() {
            Ok(s) => s,
            Err(e) => {
                return Err(e);
            },
        };
        Ok(ast::FunctionDef { name, parameters, result, body })
    }

    /// class definition: `class NAME : NEWLINE INDENT funcdef+ DEDENT`;
    /// parsed, but rejected during analysis.
    fn parse_class_def(&mut self) -> (r: Result<ast::ClassDef, CompilationError>)
        requires
            old(self).wf(),
        ensures
            Parser::advances(*old(self), *final(self)),
            r is Ok ==> old(self).pos < final(self).pos,
        decreases self.tokens@.len() - self.pos, 1int,
    {
        if !self.at(&Token::KeywordClass) {
            if self.pos < self.tokens.len() {
                return Err(self.unexpected_error("'class'"));
            }
            return Err(self.eof_error("'class'"));
        }
        let location = self.here();
        self.pos = self.pos + 1;
        let name = match self.expect_identifier() {
            Ok(v) => v,
            Err(e) => {
                return Err(e);
            },
        };
        match self.expect(&Token::Colon, "':'") {
            Ok(()) => {},
            Err(e) => {
                return Err(e);
            },
        }
        match self.expect(&Token::NewLine, "a newline") {
            Ok(()) => {},
            Err(e) => {
                return Err(e);
            },
        }
        match self.expect(&Token::Indent, "an indented block") {
            Ok(()) => {},
            Err(e) => {
                return Err(e);
            },
        }
        let mut methods: Vec<ast::FunctionDef> = Vec::new();
        let first = match self.parse_function_def() {
            Ok(f) => f,
            Err(e) => {
                return Err(e);
            },
        };
        methods.push(first);
        while !self.at(&Token::Dedent)
            invariant
                self.wf(),
                Parser::advances(*old(self), *self),
                old(self).pos < self.pos,
            decreases self.tokens@.len() - self.pos,
        {
            if self.done() {
                return Err(self.eof_error("a method or a dedent"));
            }
            let method = match self.parse_function_def() {
                Ok(f) => f,
                Err(e) => {
                    return Err(e);
                },
            };
            methods.push(method);
        }
        self.pos = self.pos + 1;
        Ok(ast::ClassDef { name, location, methods })
    }

    /// top-level: an import, a function definition or a class definition.
    fn parse_top_level(&mut self) -> (r: Result<ast::TopLevel, CompilationError>)
        requires
            old(self).wf(),
        ensures
            Parser::advances(*old(self), *final(self)),
            r is Ok ==> old(self).pos < final(self).pos,
        decreases self.tokens@.len() - self.pos, 2int,
    {
        if self.at(&Token::KeywordFrom) {
            self.pos = self.pos + 1;
            let module = match self.expect_identifier() {
                Ok(v) => v,
                Err(e) => {
                    return Err(e);
                },
            };
            match self.expect(&Token::KeywordImport, "'import'") {
                Ok(()) => {},
                Err(e) => {
                    return Err(e);
                },
            }
            let name = match self.expect_identifier() {
                Ok(v) => v,
                Err(e) => {
                    return Err(e);
                },
            };
            match self.end_of_line() {
                Ok(()) => {},
                Err(e) => {
                    return Err(e);
                },
            }
            return Ok(ast::TopLevel::Import { module, name });
        }
        if self.at(&Token::KeywordDef) {
            let function_def = match self.parse_function_def() {
                Ok(f) => f,
                Err(e) => {
                    return Err(e);
                },
            };
            return Ok(ast::TopLevel::FunctionDef(function_def));
        }
        if self.at(&Token::KeywordClass) {
            let class_def = match self.parse_class_def() {
                Ok(c) => c,
                Err(e) => {
                    return Err(e);
                },
            };
            return Ok(ast::TopLevel::ClassDef(class_def));
        }
        if self.pos < self.tokens.len() {
            Err(self.unexpected_error("'from', 'def' or 'class'"))
        } else {
            Err(self.eof_error("'from', 'def' or 'class'"))
        }
    }

    /// program: top-levels separated by newlines, up to the end of input.
    fn parse_program(&mut self) -> (r: Result<ast::Program, CompilationError>)
        requires
            old(self).wf(),
        ensures
            Parser::advances(*old(self), *final(self)),
            old(self).tokens@.len() == 0 ==> (r matches Ok(p) && p.top_levels@.len() == 0),
    {
        let mut top_levels: Vec<ast::TopLevel> = Vec::new();
        while !self.done()
            invariant
                self.wf(),
                Parser::advances(*old(self), *self),
                old(self).tokens@.len() == 0 ==> top_levels@.len() == 0,
            decreases self.tokens@.len() - self.pos,
        {
            if self.at(&Token::NewLine) {
                self.pos = self.pos + 1;
            } else {
                let top_level = match self.parse_top_level() {
                    Ok(t) => t,
                    Err(e) => {
                        return Err(e);
                    },
                };
                top_levels.push(top_level);
            }
        }
        Ok(ast::Program { top_levels })
    }
}

/// Parse source text into a program: tokenize with indentation synthesis,
/// then run the grammar over the token stream.  Empty source parses to
/// the empty program.
pub fn parse_python(source: &str) -> (r: Result<ast::Program, CompilationError>)
    ensures
        source@.len() == 0 ==> (r matches Ok(p) && p.top_levels@.len() == 0),
{
    let lexer = MyLexer::new(source);
    let tokens = match lexer.tokenize() {
        Ok(t) => t,
        Err(err) => {
            return Err(CompilationError::new(&err.location, err.msg));
        },
    };
    // Reading the length fixes the fact that the stream fits in memory,
    // which the parser's invariant carries.
    let token_count = tokens.len();
    let mut parser = Parser { tokens, pos: 0 };
    proof {
        assert(parser.tokens@.len() == token_count);
    }
    parser.parse_program()
}

} // verus!

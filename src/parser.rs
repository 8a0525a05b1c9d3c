use vstd::prelude::*;
use crate::ast::{CodeElement, Expr, ExprAssignment, ExprType, Identifier, InstructionType, Type};
use crate::lexer::{Token, TokenType};

verus! {

/// Where parsing failed and what was expected there.
#[derive(Debug, Clone, Copy, PartialEq, Eq)]
pub struct ParseError {
    /// Index of the offending token; the number of tokens at the end of input.
    pub position: usize,
    pub expected: &'static str,
}

/// A recursive-descent parser over the token stream of one source file.
pub struct Parser {
    tokens: Vec<Token>,
    current: usize,
    source: String,
    file_name: String,
    errors: Vec<ParseError>,
}

impl Parser {
    pub closed spec fn wf(&self) -> bool {
        self.current <= self.tokens@.len()
    }

    /// Index of the next token to read.
    pub closed spec fn position(&self) -> nat {
        self.current as nat
    }

    /// Tokens left to read.
    pub closed spec fn remaining(&self) -> int {
        self.tokens@.len() - self.current
    }

    pub closed spec fn tokens_spec(&self) -> Seq<Token> {
        self.tokens@
    }

    pub closed spec fn file_name_spec(&self) -> String {
        self.file_name
    }

    pub closed spec fn source_spec(&self) -> String {
        self.source
    }

    pub closed spec fn errors_spec(&self) -> Seq<ParseError> {
        self.errors@
    }

    /// The same input, read from the same place on or further.
    pub closed spec fn moved(&self, from: &Self) -> bool {
        &&& self.tokens == from.tokens
        &&& self.source == from.source
        &&& self.file_name == from.file_name
        &&& self.errors == from.errors
        &&& from.current <= self.current <= self.tokens@.len()
    }

    pub open spec fn consumed(&self, from: &Self) -> bool {
        self.position() > from.position()
    }

    pub fn new(tokens: Vec<Token>, file_name: String, source: String) -> (r: Self)
        ensures
            r.wf(),
            r.position() == 0,
            r.tokens_spec() == tokens@,
            r.file_name_spec() == file_name,
            r.source_spec() == source,
            r.errors_spec().len() == 0,
    {
        Self { tokens, current: 0, source, file_name, errors: Vec::new() }
    }

    pub fn file_name(&self) -> (r: &String)
        ensures
            r@ == self.file_name_spec()@,
    {
        &self.file_name
    }

    pub fn source(&self) -> (r: &String)
        ensures
            r@ == self.source_spec()@,
    {
        &self.source
    }

    /// The errors met so far, in order.
    pub fn errors(&self) -> (r: Vec<ParseError>)
        ensures
            r@ == self.errors_spec(),
    {
        let mut r: Vec<ParseError> = Vec::new();
        let mut i: usize = 0;
        while i < self.errors.len()
            invariant
                i <= self.errors@.len(),
                r@ == self.errors@.subrange(0, i as int),
            decreases self.errors@.len() - i,
        {
            r.push(self.errors[i]);
            i = i + 1;
            assert(r@ =~= self.errors@.subrange(0, i as int));
        }
        assert(r@ =~= self.errors@);
        r
    }

    fn is_at_end(&self) -> (r: bool)
        requires
            self.wf(),
        ensures
            r == (self.current == self.tokens@.len()),
    {
        self.current >= self.tokens.len()
    }

    fn peek(&self) -> (r: Option<TokenType>)
        requires
            self.wf(),
        ensures
            r == (if self.current < self.tokens@.len() {
                Some(self.tokens@[self.current as int].kind())
            } else {
                None::<TokenType>
            }),
    {
        if self.current < self.tokens.len() {
            Some(self.tokens[self.current].token_type())
        } else {
            None
        }
    }

    fn peekpeek(&self) -> (r: Option<TokenType>)
        requires
            self.wf(),
        ensures
            r == (if self.current + 1 < self.tokens@.len() {
                Some(self.tokens@[self.current + 1].kind())
            } else {
                None::<TokenType>
            }),
    {
        if self.current < self.tokens.len() && self.current + 1 < self.tokens.len() {
            Some(self.tokens[self.current + 1].token_type())
        } else {
            None
        }
    }

    fn check(&self, token_type: TokenType) -> (r: bool)
        requires
            self.wf(),
        ensures
            r == (self.current < self.tokens@.len() && self.tokens@[self.current as int].kind()
                == token_type),
    {
        match self.peek() {
            Some(t) => t == token_type,
            None => false,
        }
    }

    fn advance(&mut self)
        requires
            old(self).wf(),
        ensures
            final(self).moved(old(self)),
            final(self).current == if old(self).current < old(self).tokens@.len() {
                old(self).current + 1
            } else {
                old(self).current as int
            },
    {
        if self.current < self.tokens.len() {
            self.current = self.current + 1;
        }
    }

    fn match_token(&mut self, token_type: TokenType) -> (r: bool)
        requires
            old(self).wf(),
        ensures
            final(self).moved(old(self)),
            r == old(self).check_spec(token_type),
            r ==> final(self).current == old(self).current + 1,
            !r ==> final(self).current == old(self).current,
    {
        if self.check(token_type) {
            self.advance();
            true
        } else {
            false
        }
    }

    /// The tokens from `c` on are `, ap ++`.
    pub closed spec fn ap_increment_at(&self, c: int) -> bool {
        &&& 0 <= c
        &&& c + 2 < self.tokens@.len()
        &&& self.tokens@[c].kind() == TokenType::Comma
        &&& self.tokens@[c + 1].kind() == TokenType::Ap
        &&& self.tokens@[c + 2].kind() == TokenType::PlusPlus
    }

    pub closed spec fn check_spec(&self, token_type: TokenType) -> bool {
        self.current < self.tokens@.len() && self.tokens@[self.current as int].kind() == token_type
    }

    fn error_here(&self, expected: &'static str) -> (r: ParseError)
        ensures
            r.position == self.current,
    {
        ParseError { position: self.current, expected }
    }

    fn consume(&mut self, token_type: TokenType, expected: &'static str) -> (r: Result<(), ParseError>)
        requires
            old(self).wf(),
        ensures
            final(self).moved(old(self)),
            r is Ok <==> old(self).check_spec(token_type),
            r is Ok ==> final(self).current == old(self).current + 1,
            r is Err ==> final(self).current == old(self).current,
    {
        if self.match_token(token_type) {
            Ok(())
        } else {
            Err(self.error_here(expected))
        }
    }

    fn identifier(&mut self) -> (r: Result<Identifier, ParseError>)
        requires
            old(self).wf(),
        ensures
            final(self).moved(old(self)),
            r is Ok ==> final(self).consumed(old(self)),
    {
        if self.current < self.tokens.len() {
            let name = match &self.tokens[self.current] {
                Token::Identifier(name) => name.clone(),
                _ => {
                    return Err(self.error_here("identifier"));
                },
            };
            self.current = self.current + 1;
            Ok(Identifier { name })
        } else {
            Err(self.error_here("identifier"))
        }
    }
}

impl Parser {
    fn expression(&mut self) -> (r: Result<Expr, ParseError>)
        requires
            old(self).wf(),
        ensures
            final(self).moved(old(self)),
            r is Ok ==> final(self).consumed(old(self)),
        decreases old(self).remaining(), 10int,
    {
        self.sum()
    }

    /// A named argument `x = e`, or a plain expression.
    fn expr_assignment(&mut self) -> (r: Result<ExprAssignment, ParseError>)
        requires
            old(self).wf(),
        ensures
            final(self).moved(old(self)),
            r is Ok ==> final(self).consumed(old(self)),
        decreases old(self).remaining(), 11int,
    {
        let expr = self.expression()?;
        if expr.expr_type == ExprType::Identifier && expr.ident.is_some() && self.check(
            TokenType::Equal,
        ) {
            self.advance();
            let value = self.expression()?;
            match expr.ident {
                Some(ident) => Ok(ExprAssignment::Assign(ident, value)),
                None => Ok(ExprAssignment::Expr(value)),
            }
        } else {
            Ok(ExprAssignment::Expr(expr))
        }
    }

    /// `( a, b = e, ... )`.
    fn paren_arglist(&mut self) -> (r: Result<Vec<ExprAssignment>, ParseError>)
        requires
            old(self).wf(),
        ensures
            final(self).moved(old(self)),
            r is Ok ==> final(self).consumed(old(self)),
        decreases old(self).remaining(), 2int,
    {
        self.consume(TokenType::LParen, "'('")?;
        let mut args: Vec<ExprAssignment> = Vec::new();
        while !self.check(TokenType::RParen) && !self.is_at_end()
            invariant
                self.moved(old(self)),
                self.consumed(old(self)),
            decreases self.tokens@.len() - self.current,
        {
            args.push(self.expr_assignment()?);
            if !self.match_token(TokenType::Comma) {
                break;
            }
        }
        self.consume(TokenType::RParen, "')'")?;
        Ok(args)
    }

    fn sum(&mut self) -> (r: Result<Expr, ParseError>)
        requires
            old(self).wf(),
        ensures
            final(self).moved(old(self)),
            r is Ok ==> final(self).consumed(old(self)),
        decreases old(self).remaining(), 9int,
    {
        let mut expr = self.product()?;
        while self.check(TokenType::Plus) || self.check(TokenType::Minus)
            invariant
                self.moved(old(self)),
                self.consumed(old(self)),
            decreases self.tokens@.len() - self.current,
        {
            let expr_type = if self.check(TokenType::Plus) {
                ExprType::Add
            } else {
                ExprType::Sub
            };
            self.advance();
            let right = self.product()?;
            expr = Expr::new_binary(expr_type, expr, right);
        }
        Ok(expr)
    }

    fn product(&mut self) -> (r: Result<Expr, ParseError>)
        requires
            old(self).wf(),
        ensures
            final(self).moved(old(self)),
            r is Ok ==> final(self).consumed(old(self)),
        decreases old(self).remaining(), 8int,
    {
        let mut expr = self.unary()?;
        while self.check(TokenType::Star) || self.check(TokenType::Slash)
            invariant
                self.moved(old(self)),
                self.consumed(old(self)),
            decreases self.tokens@.len() - self.current,
        {
            let expr_type = if self.check(TokenType::Star) {
                ExprType::Mul
            } else {
                ExprType::Div
            };
            self.advance();
            let right = self.unary()?;
            expr = Expr::new_binary(expr_type, expr, right);
        }
        Ok(expr)
    }

    fn unary(&mut self) -> (r: Result<Expr, ParseError>)
        requires
            old(self).wf(),
        ensures
            final(self).moved(old(self)),
            r is Ok ==> final(self).consumed(old(self)),
        decreases old(self).remaining(), 7int,
    {
        if self.match_token(TokenType::Ampersand) {
            let right = self.unary()?;
            Ok(Expr::new_unary(ExprType::AddressOf, right))
        } else if self.match_token(TokenType::Minus) {
            let right = self.unary()?;
            Ok(Expr::new_unary(ExprType::Neg, right))
        } else if self.match_token(TokenType::New) {
            let right = self.unary()?;
            Ok(Expr::new_unary(ExprType::New, right))
        } else {
            self.pow()
        }
    }

    fn pow(&mut self) -> (r: Result<Expr, ParseError>)
        requires
            old(self).wf(),
        ensures
            final(self).moved(old(self)),
            r is Ok ==> final(self).consumed(old(self)),
        decreases old(self).remaining(), 6int,
    {
        let expr = self.bool_and()?;
        if self.match_token(TokenType::DoubleStar) {
            let right = self.unary()?;
            Ok(Expr::new_binary(ExprType::Pow, expr, right))
        } else {
            Ok(expr)
        }
    }

    fn bool_and(&mut self) -> (r: Result<Expr, ParseError>)
        requires
            old(self).wf(),
        ensures
            final(self).moved(old(self)),
            r is Ok ==> final(self).consumed(old(self)),
        decreases old(self).remaining(), 5int,
    {
        let mut expr = self.bool_atom()?;
        while self.check(TokenType::And)
            invariant
                self.moved(old(self)),
                self.consumed(old(self)),
            decreases self.tokens@.len() - self.current,
        {
            self.advance();
            let right = self.bool_atom()?;
            expr = Expr::new_binary(ExprType::And, expr, right);
        }
        Ok(expr)
    }

    fn bool_atom(&mut self) -> (r: Result<Expr, ParseError>)
        requires
            old(self).wf(),
        ensures
            final(self).moved(old(self)),
            r is Ok ==> final(self).consumed(old(self)),
        decreases old(self).remaining(), 4int,
    {
        let expr = self.atom()?;
        if self.match_token(TokenType::DoubleEq) {
            let right = self.atom()?;
            Ok(Expr::new_binary(ExprType::Eq, expr, right))
        } else if self.match_token(TokenType::Neq) {
            let right = self.atom()?;
            Ok(Expr::new_binary(ExprType::Neq, expr, right))
        } else {
            Ok(expr)
        }
    }

    fn atom(&mut self) -> (r: Result<Expr, ParseError>)
        requires
            old(self).wf(),
        ensures
            final(self).moved(old(self)),
            r is Ok ==> final(self).consumed(old(self)),
            ({
                let c = old(self).current as int;
                let t = old(self).tokens@[c];
                c < old(self).tokens@.len() && (t is Int || t is HexInt) ==> {
                    &&& r is Ok
                    &&& r->Ok_0.expr_type == ExprType::IntegerLiteral
                    &&& r->Ok_0.token == Some(t)
                    &&& r->Ok_0.ident is None
                    &&& r->Ok_0.is_leaf()
                    &&& final(self).current == c + 1
                }
            }),
            ({
                let c = old(self).current as int;
                let t = old(self).tokens@[c];
                c < old(self).tokens@.len() && t is Identifier && !(c + 1 < old(self).tokens@.len()
                    && (old(self).tokens@[c + 1].kind() == TokenType::LParen
                    || old(self).tokens@[c + 1].kind() == TokenType::LBracket)) ==> {
                    &&& r is Ok
                    &&& r->Ok_0.expr_type == ExprType::Identifier
                    &&& r->Ok_0.ident == Some(Identifier { name: t->Identifier_0 })
                    &&& r->Ok_0.token is None
                    &&& r->Ok_0.is_leaf()
                    &&& final(self).current == c + 1
                }
            }),
        decreases old(self).remaining(), 3int,
    {
        if self.check(TokenType::LParen) {
            let args = self.paren_arglist()?;
            return Ok(Expr::new_tuple_or_paren(args));
        }
        if self.is_at_end() {
            return Err(self.error_here("expression"));
        }
        let token = match &self.tokens[self.current] {
            Token::Int(n) => Token::Int(*n),
            Token::HexInt(n) => Token::HexInt(*n),
            Token::ShortString(s) => Token::ShortString(s.clone()),
            Token::Identifier(name) => Token::Identifier(name.clone()),
            Token::Ap => Token::Ap,
            Token::Fp => Token::Fp,
            Token::NonDet => Token::NonDet,
            Token::LBracket => Token::LBracket,
            Token::Cast => Token::Cast,
            _ => {
                return Err(self.error_here("expression"));
            },
        };
        self.advance();
        match token {
            Token::Identifier(name) => {
                if self.check(TokenType::LParen) {
                    let args = self.paren_arglist()?;
                    Ok(Expr::new_function_call(name, args))
                } else if self.match_token(TokenType::LBracket) {
                    let index = self.expression()?;
                    self.consume(TokenType::RBracket, "']'")?;
                    Ok(
                        Expr::new_binary(
                            ExprType::Subscript,
                            Expr::new_identifier(Identifier { name }),
                            index,
                        ),
                    )
                } else {
                    Ok(Expr::new_identifier(Identifier { name }))
                }
            },
            Token::Ap | Token::Fp => Ok(Expr::new_terminal(ExprType::Register, token)),
            Token::NonDet => Ok(Expr::new_terminal(ExprType::Hint, token)),
            Token::LBracket => {
                let inner = self.expression()?;
                self.consume(TokenType::RBracket, "']'")?;
                Ok(Expr::new_unary(ExprType::Deref, inner))
            },
            Token::Cast => {
                self.consume(TokenType::LParen, "'('")?;
                let inner = self.expression()?;
                self.consume(TokenType::Comma, "','")?;
                let type_ = self.type_()?;
                self.consume(TokenType::RParen, "')'")?;
                Ok(Expr::new_cast(type_, inner))
            },
            _ => Ok(Expr::new_terminal(ExprType::IntegerLiteral, token)),
        }
    }

    fn type_(&mut self) -> (r: Result<Type, ParseError>)
        requires
            old(self).wf(),
        ensures
            final(self).moved(old(self)),
            r is Ok ==> final(self).consumed(old(self)),
        decreases old(self).remaining(), 15int,
    {
        self.pointer()
    }

    /// `name: type` inside a tuple type, or a plain type.
    fn named_type(&mut self) -> (r: Result<Type, ParseError>)
        requires
            old(self).wf(),
        ensures
            final(self).moved(old(self)),
            r is Ok ==> final(self).consumed(old(self)),
        decreases old(self).remaining(), 16int,
    {
        if self.peek() == Some(TokenType::Identifier) && self.peekpeek() == Some(TokenType::Colon) {
            let ident = self.identifier()?;
            self.consume(TokenType::Colon, "':'")?;
            let type_ = self.type_()?;
            Ok(Type::Named(ident, Box::new(type_)))
        } else {
            self.pointer()
        }
    }

    fn pointer(&mut self) -> (r: Result<Type, ParseError>)
        requires
            old(self).wf(),
        ensures
            final(self).moved(old(self)),
            r is Ok ==> final(self).consumed(old(self)),
        decreases old(self).remaining(), 14int,
    {
        let type_ = self.type_atom()?;
        if self.match_token(TokenType::Star) {
            Ok(Type::Pointer(Box::new(type_)))
        } else if self.match_token(TokenType::DoubleStar) {
            Ok(Type::Pointer2(Box::new(type_)))
        } else {
            Ok(type_)
        }
    }

    fn paren_type_list(&mut self) -> (r: Result<Vec<Type>, ParseError>)
        requires
            old(self).wf(),
        ensures
            final(self).moved(old(self)),
            r is Ok ==> final(self).consumed(old(self)),
        decreases old(self).remaining(), 12int,
    {
        self.consume(TokenType::LParen, "'('")?;
        let mut types: Vec<Type> = Vec::new();
        while !self.check(TokenType::RParen) && !self.is_at_end()
            invariant
                self.moved(old(self)),
                self.consumed(old(self)),
            decreases self.tokens@.len() - self.current,
        {
            types.push(self.named_type()?);
            if !self.match_token(TokenType::Comma) {
                break;
            }
        }
        self.consume(TokenType::RParen, "')'")?;
        Ok(types)
    }

    fn type_atom(&mut self) -> (r: Result<Type, ParseError>)
        requires
            old(self).wf(),
        ensures
            final(self).moved(old(self)),
            r is Ok ==> final(self).consumed(old(self)),
        decreases old(self).remaining(), 13int,
    {
        match self.peek() {
            Some(TokenType::Felt) => {
                self.advance();
                Ok(Type::Felt)
            },
            Some(TokenType::CodeOffset) => {
                self.advance();
                Ok(Type::CodeOffset)
            },
            Some(TokenType::Identifier) => Ok(Type::Struct(self.identifier()?)),
            Some(TokenType::LParen) => Ok(Type::Tuple(self.paren_type_list()?)),
            _ => Err(self.error_here("type")),
        }
    }
}

impl Parser {
    /// Parses code elements up to the end of input. An element that does
    /// not parse is recorded in the errors, and parsing resumes after the
    /// next `;` or `}`.
    pub fn parse(&mut self) -> (r: Vec<CodeElement>)
        requires
            old(self).wf(),
        ensures
            final(self).wf(),
            final(self).tokens_spec() == old(self).tokens_spec(),
            final(self).position() == final(self).tokens_spec().len(),
            final(self).errors_spec().len() >= old(self).errors_spec().len(),
            final(self).errors_spec().subrange(0, old(self).errors_spec().len() as int)
                == old(self).errors_spec(),
            r@.len() <= old(self).remaining(),
            old(self).remaining() == 0 ==> r@.len() == 0 && final(self).errors_spec()
                == old(self).errors_spec(),
    {
        let mut elements: Vec<CodeElement> = Vec::new();
        while !self.is_at_end()
            invariant
                self.wf(),
                old(self).wf(),
                self.tokens == old(self).tokens,
                old(self).current <= self.current,
                elements@.len() <= self.current - old(self).current,
                self.current == old(self).current ==> self.errors == old(self).errors,
                self.errors@.len() >= old(self).errors@.len(),
                self.errors@.subrange(0, old(self).errors@.len() as int) == old(self).errors@,
            decreases self.tokens@.len() - self.current,
        {
            match self.code_element() {
                Ok(element) => elements.push(element),
                Err(e) => {
                    self.errors.push(e);
                    assert(self.errors@.subrange(0, old(self).errors@.len() as int)
                        =~= old(self).errors@);
                    if !self.is_at_end() {
                        self.synchronize();
                    }
                },
            }
        }
        elements
    }

    /// Skips at least one token, up to and including the next `;` or `}`.
    fn synchronize(&mut self)
        requires
            old(self).wf(),
            old(self).current < old(self).tokens@.len(),
        ensures
            final(self).moved(old(self)),
            final(self).consumed(old(self)),
    {
        let mut done = self.check(TokenType::Semicolon) || self.check(TokenType::RBrace);
        self.advance();
        while !done && !self.is_at_end()
            invariant
                self.moved(old(self)),
                self.consumed(old(self)),
            decreases self.tokens@.len() - self.current,
        {
            done = self.check(TokenType::Semicolon) || self.check(TokenType::RBrace);
            self.advance();
        }
    }

    /// `{ element* }`.
    fn block(&mut self) -> (r: Result<Vec<CodeElement>, ParseError>)
        requires
            old(self).wf(),
        ensures
            final(self).moved(old(self)),
            r is Ok ==> final(self).consumed(old(self)),
        decreases old(self).remaining(), 31int,
    {
        self.consume(TokenType::LBrace, "'{'")?;
        let mut elements: Vec<CodeElement> = Vec::new();
        while !self.check(TokenType::RBrace) && !self.is_at_end()
            invariant
                self.moved(old(self)),
                self.consumed(old(self)),
            decreases self.tokens@.len() - self.current,
        {
            elements.push(self.code_element()?);
        }
        self.consume(TokenType::RBrace, "'}'")?;
        Ok(elements)
    }

    /// `name = e;` after `let`, `tempvar` or `const`.
    fn binding(&mut self) -> (r: Result<(Identifier, Expr), ParseError>)
        requires
            old(self).wf(),
        ensures
            final(self).moved(old(self)),
            r is Ok ==> final(self).consumed(old(self)),
        decreases old(self).remaining(), 20int,
    {
        let ident = self.identifier()?;
        self.consume(TokenType::Equal, "'='")?;
        let value = self.expression()?;
        self.consume(TokenType::Semicolon, "';'")?;
        Ok((ident, value))
    }

    /// `func name(a, b: felt, ...) -> (...) { body }`, after `func`.
    fn function(&mut self) -> (r: Result<CodeElement, ParseError>)
        requires
            old(self).wf(),
        ensures
            final(self).moved(old(self)),
            r is Ok ==> final(self).consumed(old(self)),
        decreases old(self).remaining(), 29int,
    {
        let name = self.identifier()?;
        self.consume(TokenType::LParen, "'('")?;
        let mut args: Vec<Identifier> = Vec::new();
        while !self.check(TokenType::RParen) && !self.is_at_end()
            invariant
                self.moved(old(self)),
                self.consumed(old(self)),
            decreases self.tokens@.len() - self.current,
        {
            args.push(self.identifier()?);
            if self.match_token(TokenType::Colon) {
                self.type_()?;
            }
            if !self.match_token(TokenType::Comma) {
                break;
            }
        }
        self.consume(TokenType::RParen, "')'")?;
        if self.match_token(TokenType::Arrow) {
            self.type_()?;
        }
        let body = self.block()?;
        Ok(CodeElement::Function(name, args, body))
    }

    /// One statement or declaration.
    fn code_element(&mut self) -> (r: Result<CodeElement, ParseError>)
        requires
            old(self).wf(),
        ensures
            final(self).moved(old(self)),
            r is Ok ==> final(self).consumed(old(self)),
        decreases old(self).remaining(), 30int,
    {
        if self.match_token(TokenType::Func) {
            self.function()
        } else if self.match_token(TokenType::Local) {
            let ident = self.identifier()?;
            if self.match_token(TokenType::Colon) {
                self.type_()?;
            }
            let init = if self.match_token(TokenType::Equal) {
                Some(self.expression()?)
            } else {
                None
            };
            self.consume(TokenType::Semicolon, "';'")?;
            Ok(CodeElement::LocalVar(ident, init))
        } else if self.match_token(TokenType::Let) {
            let (ident, value) = self.binding()?;
            Ok(CodeElement::LocalVar(ident, Some(value)))
        } else if self.match_token(TokenType::TempVar) {
            let (ident, value) = self.binding()?;
            Ok(CodeElement::TempVar(ident, value))
        } else if self.match_token(TokenType::Const) {
            let (ident, value) = self.binding()?;
            Ok(CodeElement::Const(ident, value))
        } else if self.match_token(TokenType::Return) {
            let value = self.expression()?;
            self.consume(TokenType::Semicolon, "';'")?;
            Ok(CodeElement::Return(value))
        } else if self.match_token(TokenType::If) {
            let cond = self.expression()?;
            let body = self.block()?;
            let else_body = if self.match_token(TokenType::Else) {
                self.block()?
            } else {
                Vec::new()
            };
            Ok(CodeElement::If(cond, body, else_body))
        } else if self.match_token(TokenType::AllocLocals) {
            self.consume(TokenType::Semicolon, "';'")?;
            Ok(CodeElement::AllocLocals)
        } else if self.at_instruction() {
            let (instruction_type, incr_ap) = self.instruction()?;
            self.consume(TokenType::Semicolon, "';'")?;
            Ok(CodeElement::Instruction(instruction_type, incr_ap))
        } else if self.match_token(TokenType::Struct) {
            let ident = self.identifier()?;
            self.consume(TokenType::LBrace, "'{'")?;
            while !self.check(TokenType::RBrace) && !self.is_at_end()
                invariant
                    self.moved(old(self)),
                    self.consumed(old(self)),
                decreases self.tokens@.len() - self.current,
            {
                self.advance();
            }
            self.consume(TokenType::RBrace, "'}'")?;
            Ok(CodeElement::Struct(ident))
        } else if self.match_token(TokenType::Namespace) {
            let ident = self.identifier()?;
            let body = self.block()?;
            Ok(CodeElement::Namespace(ident, body))
        } else {
            let left = self.expression()?;
            self.consume(TokenType::Equal, "'='")?;
            let right = self.expression()?;
            self.consume(TokenType::Semicolon, "';'")?;
            Ok(CodeElement::CompoundAssertEqual(left, right))
        }
    }
}

impl Parser {
    /// The optional `, ap++` after an instruction.
    fn does_increment_ap(&mut self) -> (r: bool)
        requires
            old(self).wf(),
        ensures
            final(self).moved(old(self)),
            r == old(self).ap_increment_at(old(self).current as int),
            final(self).current == old(self).current + if r {
                3int
            } else {
                0int
            },
    {
        let old_current = self.current;
        if self.match_token(TokenType::Comma) && self.match_token(TokenType::Ap)
            && self.match_token(TokenType::PlusPlus) {
            true
        } else {
            self.current = old_current;
            false
        }
    }

    /// An instruction written directly: `call rel e`, `call abs e`,
    /// `call f`, `jmp rel e [if c]`, `jmp abs e [if c]`, `jmp l`, `ret`,
    /// `ap += e` or `dw e`, each optionally followed by `, ap++`.
    fn instruction(&mut self) -> (r: Result<(InstructionType, bool), ParseError>)
        requires
            old(self).wf(),
        ensures
            final(self).moved(old(self)),
            r is Ok ==> final(self).consumed(old(self)),
            old(self).check_spec(TokenType::Ret) ==> {
                let incr = old(self).ap_increment_at(old(self).current + 1);
                &&& r == Ok::<(InstructionType, bool), ParseError>((InstructionType::Ret, incr))
                &&& final(self).current == old(self).current + 1 + if incr {
                    3int
                } else {
                    0int
                }
            },
        decreases old(self).remaining(), 25int,
    {
        let instruction_type = if self.match_token(TokenType::Call) {
            if self.match_token(TokenType::Rel) {
                self.expression()?;
                InstructionType::CallRel
            } else if self.match_token(TokenType::Abs) {
                self.expression()?;
                InstructionType::CallAbs
            } else {
                self.identifier()?;
                InstructionType::Call
            }
        } else if self.match_token(TokenType::Jmp) {
            if self.match_token(TokenType::Rel) || self.match_token(TokenType::Abs) {
                let relative = self.current > 0 && self.current - 1 < self.tokens.len()
                    && self.tokens[self.current - 1].token_type() == TokenType::Rel;
                self.expression()?;
                if self.match_token(TokenType::If) {
                    self.expression()?;
                }
                if relative {
                    InstructionType::JmpRel
                } else {
                    InstructionType::JmpAbs
                }
            } else {
                self.identifier()?;
                InstructionType::Jmp
            }
        } else if self.match_token(TokenType::Ret) {
            InstructionType::Ret
        } else if self.match_token(TokenType::Ap) {
            self.consume(TokenType::PlusEq, "'+='")?;
            self.expression()?;
            InstructionType::AddAp
        } else if self.match_token(TokenType::Dw) {
            self.expression()?;
            InstructionType::DataWord
        } else {
            return Err(self.error_here("instruction"));
        };
        let incr_ap = self.does_increment_ap();
        Ok((instruction_type, incr_ap))
    }

    /// The next tokens start an instruction rather than an expression.
    fn at_instruction(&self) -> (r: bool)
        requires
            self.wf(),
    {
        self.check(TokenType::Call) || self.check(TokenType::Jmp) || self.check(TokenType::Ret)
            || self.check(TokenType::Dw) || (self.check(TokenType::Ap) && self.peekpeek() == Some(
            TokenType::PlusEq,
        ))
    }
}

} // verus!

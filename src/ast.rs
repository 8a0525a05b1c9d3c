use vstd::prelude::*;
use crate::lexer::Token;

verus! {

/// A name as written in the source.
#[derive(Debug, Clone, PartialEq, Eq)]
pub struct Identifier {
    pub name: String,
}

#[derive(Debug)]
pub enum NamedType {
    Identifier(Identifier, Option<Type>),
    Type(Type),
}

#[derive(Debug)]
pub enum Type {
    Felt,
    CodeOffset,
    Pointer(Box<Type>),
    Pointer2(Box<Type>),
    Tuple(Vec<Type>),
    Struct(Identifier),
    Named(Identifier, Box<Type>),
    Error,
}

/// The kind of an expression node.
#[derive(Debug, Clone, Copy, PartialEq, Eq, Structural)]
pub enum ExprType {
    IntegerLiteral,
    Hint,
    Identifier,
    Register,
    Add,
    Sub,
    Mul,
    Div,
    Pow,
    Neg,
    Deref,
    AddressOf,
    Cast,
    New,
    Eq,
    Neq,
    And,
    FunctionCall,
    Subscript,
    TupleOrParen,
    ErrorExpr,
}

/// An expression node. Which fields are set depends on `expr_type`: a
/// literal has its `token`, a name or a call its `ident`, an operator its
/// `left` (and `right`) operands, a call or a tuple its `args`, a cast its
/// `type_arg`.
#[derive(Debug)]
pub struct Expr {
    pub token: Option<Token>,
    pub ident: Option<Identifier>,
    pub expr_type: ExprType,
    pub left: Option<Box<Expr>>,
    pub right: Option<Box<Expr>>,
    pub type_arg: Option<Type>,
    pub args: Vec<ExprAssignment>,
}

/// An argument of a call: positional, or named (`x = e`).
#[derive(Debug)]
pub enum ExprAssignment {
    Expr(Expr),
    Assign(Identifier, Expr),
}

/// The instructions that can be written directly in a function body.
#[derive(Debug, Clone, Copy, PartialEq, Eq, Structural)]
pub enum InstructionType {
    AssertEq,
    Jmp,
    JmpRel,
    JmpAbs,
    Call,
    CallRel,
    CallAbs,
    AddAp,
    DataWord,
    Ret,
}

/// A statement or a declaration.
#[derive(Debug)]
pub enum CodeElement {
    /// `local name` or `local name = e`.
    LocalVar(Identifier, Option<Expr>),
    /// `return e`.
    Return(Expr),
    /// `func name(args) { body }`.
    Function(Identifier, Vec<Identifier>, Vec<CodeElement>),
    /// `a = b`, an assertion that two values are equal.
    CompoundAssertEqual(Expr, Expr),
    /// `if cond { then } else { else }`.
    If(Expr, Vec<CodeElement>, Vec<CodeElement>),
    /// An instruction written directly, and whether it ends in `, ap++`.
    Instruction(InstructionType, bool),
    /// `alloc_locals`.
    AllocLocals,
    /// `tempvar name = e`.
    TempVar(Identifier, Expr),
    /// `const name = e`.
    Const(Identifier, Expr),
    /// `struct name { ... }`.
    Struct(Identifier),
    /// `namespace name { ... }`.
    Namespace(Identifier, Vec<CodeElement>),
}

impl Expr {
    pub open spec fn is_leaf(&self) -> bool {
        &&& self.left is None
        &&& self.right is None
        &&& self.type_arg is None
        &&& self.args@.len() == 0
    }

    pub fn new_error() -> (r: Self)
        ensures
            r.expr_type == ExprType::ErrorExpr,
            r.token is None,
            r.ident is None,
            r.is_leaf(),
    {
        Self {
            token: None,
            ident: None,
            expr_type: ExprType::ErrorExpr,
            left: None,
            right: None,
            type_arg: None,
            args: Vec::new(),
        }
    }

    pub fn new_identifier(ident: Identifier) -> (r: Self)
        ensures
            r.expr_type == ExprType::Identifier,
            r.token is None,
            r.ident == Some(ident),
            r.is_leaf(),
    {
        Self {
            token: None,
            ident: Some(ident),
            expr_type: ExprType::Identifier,
            left: None,
            right: None,
            type_arg: None,
            args: Vec::new(),
        }
    }

    pub fn new_terminal(expr_type: ExprType, token: Token) -> (r: Self)
        ensures
            r.expr_type == expr_type,
            r.token == Some(token),
            r.ident is None,
            r.is_leaf(),
    {
        Self {
            token: Some(token),
            ident: None,
            expr_type,
            left: None,
            right: None,
            type_arg: None,
            args: Vec::new(),
        }
    }

    pub fn new_unary(expr_type: ExprType, child: Expr) -> (r: Self)
        ensures
            r.expr_type == expr_type,
            r.token is None,
            r.ident is None,
            r.left == Some(Box::new(child)),
            r.right is None,
            r.type_arg is None,
            r.args@.len() == 0,
    {
        Self {
            token: None,
            ident: None,
            expr_type,
            left: Some(Box::new(child)),
            right: None,
            type_arg: None,
            args: Vec::new(),
        }
    }

    pub fn new_binary(expr_type: ExprType, left: Expr, right: Expr) -> (r: Self)
        ensures
            r.expr_type == expr_type,
            r.token is None,
            r.ident is None,
            r.left == Some(Box::new(left)),
            r.right == Some(Box::new(right)),
            r.type_arg is None,
            r.args@.len() == 0,
    {
        Self {
            token: None,
            ident: None,
            expr_type,
            left: Some(Box::new(left)),
            right: Some(Box::new(right)),
            type_arg: None,
            args: Vec::new(),
        }
    }

    /// A call of the function `name`.
    pub fn new_function_call(name: String, args: Vec<ExprAssignment>) -> (r: Self)
        ensures
            r.expr_type == ExprType::FunctionCall,
            r.token is None,
            r.ident == Some(Identifier { name }),
            r.left is None,
            r.right is None,
            r.type_arg is None,
            r.args == args,
    {
        Self {
            token: None,
            ident: Some(Identifier { name }),
            expr_type: ExprType::FunctionCall,
            left: None,
            right: None,
            type_arg: None,
            args,
        }
    }

    pub fn new_tuple_or_paren(args: Vec<ExprAssignment>) -> (r: Self)
        ensures
            r.expr_type == ExprType::TupleOrParen,
            r.token is None,
            r.ident is None,
            r.left is None,
            r.right is None,
            r.type_arg is None,
            r.args == args,
    {
        Self {
            token: None,
            ident: None,
            expr_type: ExprType::TupleOrParen,
            left: None,
            right: None,
            type_arg: None,
            args,
        }
    }

    pub fn new_cast(type_arg: Type, child: Expr) -> (r: Self)
        ensures
            r.expr_type == ExprType::Cast,
            r.token is None,
            r.ident is None,
            r.left == Some(Box::new(child)),
            r.right is None,
            r.type_arg == Some(type_arg),
            r.args@.len() == 0,
    {
        Self {
            token: None,
            ident: None,
            expr_type: ExprType::Cast,
            left: Some(Box::new(child)),
            right: None,
            type_arg: Some(type_arg),
            args: Vec::new(),
        }
    }
}

} // verus!

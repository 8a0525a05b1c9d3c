use vstd::prelude::*;
use crate::artifact::{hex_text, hex_word};
use crate::ast::{Expr, ExprAssignment, ExprType, Type};
use crate::casm::{CasmInstruction, Operand};
use crate::lexer::Token;

verus! {

pub open spec fn decimal_digit(d: nat) -> char {
    (('0' as nat) + d) as char
}

/// The decimal digits of `n`, without leading zeros.
pub open spec fn decimal_digits(n: nat) -> Seq<char>
    decreases n,
{
    if n < 10 {
        seq![decimal_digit(n)]
    } else {
        decimal_digits(n / 10).push(decimal_digit(n % 10))
    }
}

/// `n` in decimal, with a leading `-` when negative.
pub open spec fn decimal_text(n: int) -> Seq<char> {
    if n < 0 {
        seq!['-'] + decimal_digits((-n) as nat)
    } else {
        decimal_digits(n as nat)
    }
}

/// Relies on `ToString` for `i128`: the decimal digits, after a `-` for a
/// negative number.
#[verifier::external_body]
fn decimal(n: i128) -> (r: String)
    ensures
        r@ == decimal_text(n as int),
{
    n.to_string()
}

/// Relies on `<[&str]>::concat`: the two strings one after the other.
#[verifier::external_body]
pub(crate) fn concat(a: &str, b: &str) -> (r: String)
    ensures
        r@ == a@ + b@,
{
    [a, b].concat()
}

/// An operand as written in assembly: `7`, `[fp + -3]`, `[ap + 0]`.
pub open spec fn operand_text(op: Operand) -> Seq<char> {
    match op {
        Operand::Int(n) => decimal_text(n as int),
        Operand::DerefFp(k) => "[fp + "@ + decimal_text(k as int) + "]"@,
        Operand::DerefAp(k) => "[ap + "@ + decimal_text(k as int) + "]"@,
    }
}

/// An instruction as written in assembly.
pub open spec fn casm_text(c: CasmInstruction) -> Seq<char> {
    match c {
        CasmInstruction::Ret => "ret;"@,
        CasmInstruction::Call(l) => "call "@ + l@ + ";"@,
        CasmInstruction::CallRel(k) => "call rel "@ + decimal_text(k as int) + ";"@,
        CasmInstruction::CallAbs(a) => "call abs "@ + decimal_text(a as int) + ";"@,
        CasmInstruction::IncrFp(n) => "fp += "@ + decimal_text(n as int) + ";"@,
        CasmInstruction::IncrAp(n) => "ap += "@ + decimal_text(n as int) + ";"@,
        CasmInstruction::Label(l) => l@ + ":"@,
        CasmInstruction::Store { left, op, incr_ap } => operand_text(left) + " = "@ + operand_text(op)
            + if incr_ap {
            ", ap++;"@
        } else {
            ";"@
        },
        CasmInstruction::Add { left, op1, op2 } => operand_text(left) + " = "@ + operand_text(op1)
            + " + "@ + operand_text(op2) + ", ap++;"@,
        CasmInstruction::Mul { left, op1, op2 } => operand_text(left) + " = "@ + operand_text(op1)
            + " * "@ + operand_text(op2) + ", ap++;"@,
        CasmInstruction::Deref { left, op } => operand_text(left) + " = "@ + operand_text(op) + ";"@,
        CasmInstruction::Jmp(l) => "jmp "@ + l@ + ";"@,
        CasmInstruction::JmpRel(k) => "jmp rel "@ + decimal_text(k as int) + ";"@,
        CasmInstruction::JmpIfNeq(k, op) => "jmp rel "@ + decimal_text(k as int) + " if "@
            + operand_text(op) + " != 0"@,
        CasmInstruction::JmpIfNeqRel(k, op) => "jmp rel "@ + decimal_text(k as int) + " if "@
            + operand_text(op) + " != 0"@,
    }
}

/// `prefix`, then `middle`, then `suffix`.
fn wrap(prefix: &str, middle: &str, suffix: &str) -> (r: String)
    ensures
        r@ == prefix@ + middle@ + suffix@,
{
    let head = concat(prefix, middle);
    concat(head.as_str(), suffix)
}

impl Operand {
    /// The operand as written in assembly.
    pub fn text(&self) -> (r: String)
        ensures
            r@ == operand_text(*self),
    {
        match self {
            Operand::Int(n) => decimal(*n as i128),
            Operand::DerefFp(k) => wrap("[fp + ", decimal(*k as i128).as_str(), "]"),
            Operand::DerefAp(k) => wrap("[ap + ", decimal(*k as i128).as_str(), "]"),
        }
    }
}

impl CasmInstruction {
    /// The instruction as written in assembly.
    pub fn text(&self) -> (r: String)
        ensures
            r@ == casm_text(*self),
    {
        match self {
            CasmInstruction::Ret => "ret;".to_owned(),
            CasmInstruction::Call(label) => wrap("call ", label.as_str(), ";"),
            CasmInstruction::CallRel(offset) => wrap("call rel ", decimal(*offset as i128).as_str(), ";"),
            CasmInstruction::CallAbs(address) => wrap("call abs ", decimal(*address as i128).as_str(), ";"),
            CasmInstruction::IncrFp(n) => wrap("fp += ", decimal(*n as i128).as_str(), ";"),
            CasmInstruction::IncrAp(n) => wrap("ap += ", decimal(*n as i128).as_str(), ";"),
            CasmInstruction::Label(label) => concat(label.as_str(), ":"),
            CasmInstruction::Store { left, op, incr_ap } => {
                let assign = wrap(left.text().as_str(), " = ", op.text().as_str());
                concat(
                    assign.as_str(),
                    if *incr_ap {
                        ", ap++;"
                    } else {
                        ";"
                    },
                )
            },
            CasmInstruction::Add { left, op1, op2 } => {
                let assign = wrap(left.text().as_str(), " = ", op1.text().as_str());
                let sum = wrap(assign.as_str(), " + ", op2.text().as_str());
                concat(sum.as_str(), ", ap++;")
            },
            CasmInstruction::Mul { left, op1, op2 } => {
                let assign = wrap(left.text().as_str(), " = ", op1.text().as_str());
                let product = wrap(assign.as_str(), " * ", op2.text().as_str());
                concat(product.as_str(), ", ap++;")
            },
            CasmInstruction::Deref { left, op } => {
                let assign = wrap(left.text().as_str(), " = ", op.text().as_str());
                concat(assign.as_str(), ";")
            },
            CasmInstruction::Jmp(label) => wrap("jmp ", label.as_str(), ";"),
            CasmInstruction::JmpRel(offset) => wrap("jmp rel ", decimal(*offset as i128).as_str(), ";"),
            CasmInstruction::JmpIfNeq(offset, op) => {
                let jump = wrap("jmp rel ", decimal(*offset as i128).as_str(), " if ");
                wrap(jump.as_str(), op.text().as_str(), " != 0")
            },
            CasmInstruction::JmpIfNeqRel(offset, op) => {
                let jump = wrap("jmp rel ", decimal(*offset as i128).as_str(), " if ");
                wrap(jump.as_str(), op.text().as_str(), " != 0")
            },
        }
    }
}

/// How a token is spelled.
pub open spec fn token_text(t: Token) -> Seq<char> {
    match t {
        Token::Int(n) => decimal_text(n as int),
        Token::HexInt(n) => hex_text(n),
        Token::Identifier(s) => s@,
        Token::String(s) => s@,
        Token::ShortString(s) => s@,
        Token::PlusPlus => "++"@,
        Token::DoubleEq => "=="@,
        Token::DoubleStar => "**"@,
        Token::Neq => "!="@,
        Token::Arrow => "->"@,
        Token::At => "@"@,
        Token::Comma => ","@,
        Token::Colon => ":"@,
        Token::Felt => "felt"@,
        Token::CodeOffset => "codeoffset"@,
        Token::Star => "*"@,
        Token::LParen => "("@,
        Token::RParen => ")"@,
        Token::Equal => "="@,
        Token::Plus => "+"@,
        Token::Minus => "-"@,
        Token::Slash => "/"@,
        Token::Ampersand => "&"@,
        Token::New => "new"@,
        Token::Dot => "."@,
        Token::NonDet => "nondet"@,
        Token::LBracket => "["@,
        Token::RBracket => "]"@,
        Token::Cast => "cast"@,
        Token::Ap => "ap"@,
        Token::Fp => "fp"@,
        Token::And => "and"@,
        Token::Local => "local"@,
        Token::Ret => "ret"@,
        Token::Call => "call"@,
        Token::Rel => "rel"@,
        Token::Abs => "abs"@,
        Token::Jmp => "jmp"@,
        Token::If => "if"@,
        Token::Else => "else"@,
        Token::PlusEq => "+="@,
        Token::Dw => "dw"@,
        Token::LBrace => "{"@,
        Token::RBrace => "}"@,
        Token::Import => "import"@,
        Token::From => "from"@,
        Token::As => "as"@,
        Token::Func => "func"@,
        Token::With => "with"@,
        Token::Struct => "struct"@,
        Token::Namespace => "namespace"@,
        Token::WithAttr => "with_attr"@,
        Token::Semicolon => ";"@,
        Token::Const => "const"@,
        Token::Let => "let"@,
        Token::TempVar => "tempvar"@,
        Token::Assert => "assert"@,
        Token::StaticAssert => "static_assert"@,
        Token::Return => "return"@,
        Token::Using => "using"@,
        Token::AllocLocals => "alloc_locals"@,
    }
}

/// The name of an expression kind.
pub open spec fn expr_type_name(t: ExprType) -> Seq<char> {
    match t {
        ExprType::IntegerLiteral => "IntegerLiteral"@,
        ExprType::Hint => "Hint"@,
        ExprType::Identifier => "Identifier"@,
        ExprType::Register => "Register"@,
        ExprType::Add => "Add"@,
        ExprType::Sub => "Sub"@,
        ExprType::Mul => "Mul"@,
        ExprType::Div => "Div"@,
        ExprType::Pow => "Pow"@,
        ExprType::Neg => "Neg"@,
        ExprType::Deref => "Deref"@,
        ExprType::AddressOf => "AddressOf"@,
        ExprType::Cast => "Cast"@,
        ExprType::New => "New"@,
        ExprType::Eq => "Eq"@,
        ExprType::Neq => "Neq"@,
        ExprType::And => "And"@,
        ExprType::FunctionCall => "FunctionCall"@,
        ExprType::Subscript => "Subscript"@,
        ExprType::TupleOrParen => "TupleOrParen"@,
        ExprType::ErrorExpr => "ErrorExpr"@,
    }
}

impl Token {
    /// The token as spelled in the source.
    pub fn text(&self) -> (r: String)
        ensures
            r@ == token_text(*self),
    {
        match self {
            Token::Int(n) => decimal(*n as i128),
            Token::HexInt(n) => hex_word(*n),
            Token::Identifier(s) => s.clone(),
            Token::String(s) => s.clone(),
            Token::ShortString(s) => s.clone(),
            Token::PlusPlus => "++".to_owned(),
            Token::DoubleEq => "==".to_owned(),
            Token::DoubleStar => "**".to_owned(),
            Token::Neq => "!=".to_owned(),
            Token::Arrow => "->".to_owned(),
            Token::At => "@".to_owned(),
            Token::Comma => ",".to_owned(),
            Token::Colon => ":".to_owned(),
            Token::Felt => "felt".to_owned(),
            Token::CodeOffset => "codeoffset".to_owned(),
            Token::Star => "*".to_owned(),
            Token::LParen => "(".to_owned(),
            Token::RParen => ")".to_owned(),
            Token::Equal => "=".to_owned(),
            Token::Plus => "+".to_owned(),
            Token::Minus => "-".to_owned(),
            Token::Slash => "/".to_owned(),
            Token::Ampersand => "&".to_owned(),
            Token::New => "new".to_owned(),
            Token::Dot => ".".to_owned(),
            Token::NonDet => "nondet".to_owned(),
            Token::LBracket => "[".to_owned(),
            Token::RBracket => "]".to_owned(),
            Token::Cast => "cast".to_owned(),
            Token::Ap => "ap".to_owned(),
            Token::Fp => "fp".to_owned(),
            Token::And => "and".to_owned(),
            Token::Local => "local".to_owned(),
            Token::Ret => "ret".to_owned(),
            Token::Call => "call".to_owned(),
            Token::Rel => "rel".to_owned(),
            Token::Abs => "abs".to_owned(),
            Token::Jmp => "jmp".to_owned(),
            Token::If => "if".to_owned(),
            Token::Else => "else".to_owned(),
            Token::PlusEq => "+=".to_owned(),
            Token::Dw => "dw".to_owned(),
            Token::LBrace => "{".to_owned(),
            Token::RBrace => "}".to_owned(),
            Token::Import => "import".to_owned(),
            Token::From => "from".to_owned(),
            Token::As => "as".to_owned(),
            Token::Func => "func".to_owned(),
            Token::With => "with".to_owned(),
            Token::Struct => "struct".to_owned(),
            Token::Namespace => "namespace".to_owned(),
            Token::WithAttr => "with_attr".to_owned(),
            Token::Semicolon => ";".to_owned(),
            Token::Const => "const".to_owned(),
            Token::Let => "let".to_owned(),
            Token::TempVar => "tempvar".to_owned(),
            Token::Assert => "assert".to_owned(),
            Token::StaticAssert => "static_assert".to_owned(),
            Token::Return => "return".to_owned(),
            Token::Using => "using".to_owned(),
            Token::AllocLocals => "alloc_locals".to_owned(),
        }
    }
}

impl ExprType {
    pub fn name(&self) -> (r: &'static str)
        ensures
            r@ == expr_type_name(*self),
    {
        match self {
            ExprType::IntegerLiteral => "IntegerLiteral",
            ExprType::Hint => "Hint",
            ExprType::Identifier => "Identifier",
            ExprType::Register => "Register",
            ExprType::Add => "Add",
            ExprType::Sub => "Sub",
            ExprType::Mul => "Mul",
            ExprType::Div => "Div",
            ExprType::Pow => "Pow",
            ExprType::Neg => "Neg",
            ExprType::Deref => "Deref",
            ExprType::AddressOf => "AddressOf",
            ExprType::Cast => "Cast",
            ExprType::New => "New",
            ExprType::Eq => "Eq",
            ExprType::Neq => "Neq",
            ExprType::And => "And",
            ExprType::FunctionCall => "FunctionCall",
            ExprType::Subscript => "Subscript",
            ExprType::TupleOrParen => "TupleOrParen",
            ExprType::ErrorExpr => "ErrorExpr",
        }
    }
}

/// Two more spaces of indentation.
pub open spec fn deeper(pad: Seq<char>) -> Seq<char> {
    pad + "  "@
}

/// `s` when `cond` holds, else nothing.
pub open spec fn when(cond: bool, s: Seq<char>) -> Seq<char> {
    if cond {
        s
    } else {
        Seq::empty()
    }
}

/// A type as an indented tree, one node per line.
pub open spec fn type_tree(t: Type, pad: Seq<char>) -> Seq<char>
    decreases t, 0int,
{
    pad + match t {
        Type::Felt => "Felt"@,
        Type::CodeOffset => "CodeOffset"@,
        Type::Pointer(inner) => "Pointer\n"@ + type_tree(*inner, deeper(pad)),
        Type::Pointer2(inner) => "Pointer2\n"@ + type_tree(*inner, deeper(pad)),
        Type::Tuple(types) => "Tuple\n"@ + type_list_tree(types, types@.len() as int, deeper(pad)),
        Type::Struct(id) => "Struct '"@ + id.name@ + "'\n"@,
        Type::Named(id, inner) => "Named '"@ + id.name@ + "'\n"@ + type_tree(*inner, deeper(pad)),
        Type::Error => "Error"@,
    }
}

/// The first `n` types, each as a tree followed by a line break.
pub open spec fn type_list_tree(types: Vec<Type>, n: int, pad: Seq<char>) -> Seq<char>
    decreases types, n,
{
    if n <= 0 || n > types@.len() {
        Seq::empty()
    } else {
        proof {
            assert(decreases_to!(types => types[n - 1]));
        }
        type_list_tree(types, n - 1, pad) + type_tree(types[n - 1], pad) + "\n"@
    }
}

/// The first line of an expression node: its kind, then its token and its
/// name, quoted, when it has them.
pub open spec fn expr_head(e: Expr, pad: Seq<char>) -> Seq<char> {
    pad + expr_type_name(e.expr_type) + when(
        e.token is Some,
        " '"@ + token_text(e.token->Some_0) + "'"@,
    ) + when(e.ident is Some, " '"@ + e.ident->Some_0.name@ + "'"@)
}

/// The children of an expression node, one level deeper, each followed by a
/// line break: its operands, its type argument, then its arguments.
pub open spec fn expr_children(e: Expr, pad: Seq<char>) -> Seq<char>
    decreases e, 1int,
{
    let inner = deeper(pad);
    let lpart = match e.left {
        Some(l) => expr_tree(*l, inner) + "\n"@,
        None => Seq::empty(),
    };
    let rpart = match e.right {
        Some(r) => expr_tree(*r, inner) + "\n"@,
        None => Seq::empty(),
    };
    let tpart = match e.type_arg {
        Some(t) => type_tree(t, inner) + "\n"@,
        None => Seq::empty(),
    };
    lpart + rpart + tpart + args_tree(e.args, e.args@.len() as int, inner)
}

/// An expression as an indented tree: its head, then, if it has operands or
/// arguments, a line break and its children.
pub open spec fn expr_tree(e: Expr, pad: Seq<char>) -> Seq<char>
    decreases e, 2int,
{
    if e.left is Some || e.right is Some || e.args@.len() > 0 {
        expr_head(e, pad) + "\n"@ + expr_children(e, pad)
    } else {
        expr_head(e, pad)
    }
}

/// The first `n` arguments, each as a tree followed by a line break; a
/// named one is introduced by an `Assign 'name' = ` line.
pub open spec fn args_tree(args: Vec<ExprAssignment>, n: int, pad: Seq<char>) -> Seq<char>
    decreases args, n,
{
    if n <= 0 || n > args@.len() {
        Seq::empty()
    } else {
        proof {
            assert(decreases_to!(args => args[n - 1]));
        }
        args_tree(args, n - 1, pad) + assignment_tree(args[n - 1], pad) + "\n"@
    }
}

/// An argument as a tree; a named one is introduced by an
/// `Assign 'name' = ` line.
pub open spec fn assignment_tree(a: ExprAssignment, pad: Seq<char>) -> Seq<char>
    decreases a, 0int,
{
    match a {
        ExprAssignment::Expr(x) => expr_tree(x, pad),
        ExprAssignment::Assign(id, x) => pad + "Assign '"@ + id.name@ + "' = "@ + "\n"@ + pad
            + expr_tree(x, pad),
    }
}

/// `a`, then `b`.
fn join(a: String, b: &str) -> (r: String)
    ensures
        r@ == a@ + b@,
{
    concat(a.as_str(), b)
}

impl Type {
    /// The type as an indented tree, each line starting with `pad`.
    pub fn text_with_indent(&self, pad: &str) -> (r: String)
        ensures
            r@ == type_tree(*self, pad@),
        decreases self,
    {
        let deeper_pad = concat(pad, "  ");
        let body = match self {
            Type::Felt => "Felt".to_owned(),
            Type::CodeOffset => "CodeOffset".to_owned(),
            Type::Pointer(inner) => concat("Pointer\n", inner.text_with_indent(deeper_pad.as_str()).as_str()),
            Type::Pointer2(inner) => concat("Pointer2\n", inner.text_with_indent(deeper_pad.as_str()).as_str()),
            Type::Tuple(types) => {
                let mut lines = "Tuple\n".to_owned();
                let mut i: usize = 0;
                while i < types.len()
                    invariant
                        i <= types@.len(),
                        *self == Type::Tuple(*types),
                        deeper_pad@ == deeper(pad@),
                        lines@ == "Tuple\n"@ + type_list_tree(*types, i as int, deeper(pad@)),
                    decreases types@.len() - i,
                {
                    assert(decreases_to!(*self => self->Tuple_0));
                    assert(decreases_to!(*types => types[i as int]));
                    let line = types[i].text_with_indent(deeper_pad.as_str());
                    lines = join(join(lines, line.as_str()), "\n");
                    i = i + 1;
                }
                lines
            },
            Type::Struct(ident) => wrap("Struct '", ident.name.as_str(), "'\n"),
            Type::Named(ident, inner) => {
                let head = wrap("Named '", ident.name.as_str(), "'\n");
                join(head, inner.text_with_indent(deeper_pad.as_str()).as_str())
            },
            Type::Error => "Error".to_owned(),
        };
        concat(pad, body.as_str())
    }
}

impl Expr {
    fn head_text(&self, pad: &str) -> (r: String)
        ensures
            r@ == expr_head(*self, pad@),
    {
        let mut head = concat(pad, self.expr_type.name());
        let ghost base = head@;
        match &self.token {
            Some(token) => {
                head = join(join(join(head, " '"), token.text().as_str()), "'");
            },
            None => {},
        }
        let ghost with_token = head@;
        match &self.ident {
            Some(ident) => {
                head = join(join(join(head, " '"), ident.name.as_str()), "'");
            },
            None => {},
        }
        proof {
            reveal_strlit("");
            assert(with_token =~= base + when(
                self.token is Some,
                " '"@ + token_text(self.token->Some_0) + "'"@,
            ));
            assert(head@ =~= with_token + when(self.ident is Some, " '"@ + self.ident->Some_0.name@ + "'"@));
        }
        head
    }

    fn children_text(&self, pad: &str) -> (r: String)
        ensures
            r@ == expr_children(*self, pad@),
        decreases self, 1int,
    {
        let deeper_pad = concat(pad, "  ");
        let mut text = "".to_owned();
        proof {
            reveal_strlit("");
        }
        match &self.left {
            Some(left) => {
                text = join(join(text, left.text_with_indent(deeper_pad.as_str()).as_str()), "\n");
            },
            None => {},
        }
        let ghost t1 = text@;
        match &self.right {
            Some(right) => {
                text = join(join(text, right.text_with_indent(deeper_pad.as_str()).as_str()), "\n");
            },
            None => {},
        }
        let ghost t2 = text@;
        match &self.type_arg {
            Some(type_arg) => {
                text = join(join(text, type_arg.text_with_indent(deeper_pad.as_str()).as_str()), "\n");
            },
            None => {},
        }
        let ghost prefix = text@;
        proof {
            let inner = deeper(pad@);
            let lpart = if self.left is Some {
                expr_tree(*self.left->Some_0, inner) + "\n"@
            } else {
                Seq::<char>::empty()
            };
            let rpart = if self.right is Some {
                expr_tree(*self.right->Some_0, inner) + "\n"@
            } else {
                Seq::<char>::empty()
            };
            let tpart = if self.type_arg is Some {
                type_tree(self.type_arg->Some_0, inner) + "\n"@
            } else {
                Seq::<char>::empty()
            };
            assert(t1 =~= lpart);
            assert(t2 =~= lpart + rpart);
            assert(prefix =~= lpart + rpart + tpart);
        }
        let mut i: usize = 0;
        while i < self.args.len()
            invariant
                i <= self.args@.len(),
                deeper_pad@ == deeper(pad@),
                text@ == prefix + args_tree(self.args, i as int, deeper(pad@)),
            decreases self.args@.len() - i,
        {
            assert(decreases_to!(*self => self.args));
            assert(decreases_to!(self.args => self.args[i as int]));
            let line = self.args[i].text_with_indent(deeper_pad.as_str());
            text = join(join(text, line.as_str()), "\n");
            i = i + 1;
        }
        text
    }

    /// The expression as an indented tree, each line starting with `pad`.
    pub fn text_with_indent(&self, pad: &str) -> (r: String)
        ensures
            r@ == expr_tree(*self, pad@),
        decreases self, 2int,
    {
        let head = self.head_text(pad);
        if self.left.is_none() && self.right.is_none() && self.args.len() == 0 {
            return head;
        }
        let children = self.children_text(pad);
        join(join(head, "\n"), children.as_str())
    }
}

impl ExprAssignment {
    /// The argument as an indented tree, each line starting with `pad`.
    pub fn text_with_indent(&self, pad: &str) -> (r: String)
        ensures
            r@ == assignment_tree(*self, pad@),
        decreases self, 0int,
    {
        match self {
            ExprAssignment::Expr(expr) => expr.text_with_indent(pad),
            ExprAssignment::Assign(ident, expr) => {
                let head = wrap(pad, "Assign '", ident.name.as_str());
                let line = join(join(join(head, "' = "), "\n"), pad);
                join(line, expr.text_with_indent(pad).as_str())
            },
        }
    }
}

} // verus!

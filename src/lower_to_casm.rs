use vstd::prelude::*;
use crate::ast::{CodeElement, Expr, ExprAssignment, ExprType, Identifier, InstructionType};
use crate::casm::{CasmInstruction, Operand};
use crate::error::CompileError;
use crate::lexer::Token;
use crate::symbols::SymbolTable;

verus! {

/// The lowerer's state as a value: the instructions emitted so far, the
/// frame offset of each visible name, the number of locals the current
/// function declares, and the next free local slot.
pub struct LowerState {
    pub code: Seq<CasmInstruction>,
    pub locals: Map<Seq<char>, i32>,
    pub size_of_locals: u64,
    pub next_local: u64,
}

/// The largest value of an `i32`.
pub const I32_MAX: u64 = 0x7fff_ffff;

/// The value of an integer literal's token.
pub open spec fn literal_value(e: Expr) -> Option<u64> {
    match e.token {
        Some(Token::Int(n)) => Some(n),
        Some(Token::HexInt(n)) => Some(n),
        _ => None,
    }
}

/// `Store { [ap + 0], op, ap++ }`: pushes `op` on the stack.
pub open spec fn push_value(op: Operand) -> CasmInstruction {
    CasmInstruction::Store { left: Operand::DerefAp(0), op, incr_ap: true }
}

/// Pushes each operand, in order.
pub open spec fn push_all(ops: Seq<Operand>) -> Seq<CasmInstruction> {
    Seq::new(ops.len(), |i: int| push_value(ops[i]))
}

/// Code and result of an `Add`, `Sub` or `Mul` node once both operands are
/// lowered: `code` is what the operands emitted, `p` and `q` where their
/// values are.
pub open spec fn arith_node(kind: ExprType, code: Seq<CasmInstruction>, p: Operand, q: Operand) -> Result<
    (Seq<CasmInstruction>, Operand),
    CompileError,
> {
    if kind == ExprType::Sub {
        Ok(
            (
                code.push(CasmInstruction::Add { left: p, op1: Operand::DerefAp(0), op2: q }),
                Operand::DerefAp(-1i32),
            ),
        )
    } else if p is Int && q is Int {
        let v = if kind == ExprType::Add {
            p->Int_0 + q->Int_0
        } else {
            p->Int_0 * q->Int_0
        };
        if v > u64::MAX {
            Err(CompileError::LiteralOverflow)
        } else {
            Ok((code, Operand::Int(v as u64)))
        }
    } else {
        let (x, y) = if p is Int {
            (q, p)
        } else {
            (p, q)
        };
        let i = if kind == ExprType::Add {
            CasmInstruction::Add { left: Operand::DerefAp(0), op1: x, op2: y }
        } else {
            CasmInstruction::Mul { left: Operand::DerefAp(0), op1: x, op2: y }
        };
        Ok((code.push(i), Operand::DerefAp(-1i32)))
    }
}

/// Combines the lowering of two operands, left first.
pub open spec fn binary_node(
    kind: ExprType,
    a: Result<(Seq<CasmInstruction>, Operand), CompileError>,
    b: Result<(Seq<CasmInstruction>, Operand), CompileError>,
) -> Result<(Seq<CasmInstruction>, Operand), CompileError> {
    match a {
        Err(x) => Err(x),
        Ok((c1, p)) => match b {
            Err(y) => Err(y),
            Ok((c2, q)) => arith_node(kind, c1 + c2, p, q),
        },
    }
}

/// Lowering of an expression, given the frame offset of each visible name:
/// the instructions it emits and the operand where its value can then be
/// read.
pub open spec fn lowered_expr(locals: Map<Seq<char>, i32>, e: Expr) -> Result<
    (Seq<CasmInstruction>, Operand),
    CompileError,
>
    decreases e, 0int,
{
    match e.expr_type {
        ExprType::IntegerLiteral => match literal_value(e) {
            Some(n) => Ok((Seq::empty(), Operand::Int(n))),
            None => Err(CompileError::UnsupportedConstruct),
        },
        ExprType::Identifier => match e.ident {
            Some(id) => if locals.contains_key(id.name@) {
                Ok((Seq::empty(), Operand::DerefFp(locals[id.name@])))
            } else {
                Err(CompileError::UnknownIdentifier(id.name))
            },
            None => Err(CompileError::UnsupportedConstruct),
        },
        ExprType::Add | ExprType::Sub | ExprType::Mul => match e.left {
            Some(l) => match e.right {
                Some(r) => binary_node(e.expr_type, lowered_expr(locals, *l), lowered_expr(locals, *r)),
                None => Err(CompileError::UnsupportedConstruct),
            },
            None => Err(CompileError::UnsupportedConstruct),
        },
        ExprType::FunctionCall => match e.ident {
            Some(id) => match lowered_args(locals, e.args, e.args@.len() as int) {
                Err(x) => Err(x),
                Ok((c, ops)) => Ok(
                    (c + push_all(ops).push(CasmInstruction::Call(id.name)), Operand::DerefAp(-1i32)),
                ),
            },
            None => Err(CompileError::UnsupportedConstruct),
        },
        _ => Err(CompileError::UnsupportedConstruct),
    }
}

/// Lowering of the first `n` arguments of a call, in order: the code they
/// emit and the operands where their values are.
pub open spec fn lowered_args(locals: Map<Seq<char>, i32>, args: Vec<ExprAssignment>, n: int) -> Result<
    (Seq<CasmInstruction>, Seq<Operand>),
    CompileError,
>
    decreases args, n,
{
    if n <= 0 || n > args@.len() {
        Ok((Seq::empty(), Seq::empty()))
    } else {
        match lowered_args(locals, args, n - 1) {
            Err(x) => Err(x),
            Ok((c, ops)) => match args[n - 1] {
                ExprAssignment::Expr(x) => {
                    proof {
                        assert(decreases_to!(args => args[n - 1]));
                    }
                    match lowered_expr(locals, x) {
                        Err(y) => Err(y),
                        Ok((c2, v)) => Ok((c + c2, ops.push(v))),
                    }
                },
                ExprAssignment::Assign(_, _) => Err(CompileError::UnsupportedConstruct),
            },
        }
    }
}

/// The number of `LocalVar` declarations among the first `n` elements.
pub open spec fn count_locals(body: Seq<CodeElement>, n: int) -> nat
    decreases n,
{
    if n <= 0 {
        0
    } else {
        count_locals(body, n - 1) + if body[n - 1] is LocalVar {
            1nat
        } else {
            0nat
        }
    }
}

/// The frame offsets of the first `n` of a function's `len` arguments:
/// argument `i` lives at `fp - (len + 2) + i`, below the saved `fp` and the
/// return address.
pub open spec fn arg_slots(args: Seq<Identifier>, len: int, n: int) -> Map<Seq<char>, i32>
    decreases n,
{
    if n <= 0 {
        Map::empty()
    } else {
        arg_slots(args, len, n - 1).insert(args[n - 1].name@, (n - 1 - (len + 2)) as i32)
    }
}

pub open spec fn with_code(st: LowerState, code: Seq<CasmInstruction>) -> LowerState {
    LowerState { code, locals: st.locals, size_of_locals: st.size_of_locals, next_local: st.next_local }
}

/// The state in which a function's body is lowered.
pub open spec fn function_entry(st: LowerState, name: Identifier, args: Seq<Identifier>, body: Seq<CodeElement>) -> LowerState {
    LowerState {
        code: st.code.push(CasmInstruction::Label(name.name)),
        locals: arg_slots(args, args.len() as int, args.len() as int),
        size_of_locals: count_locals(body, body.len() as int) as u64,
        next_local: 0,
    }
}

/// Lowering of one code element from state `st`.
pub open spec fn lowered_element(st: LowerState, ce: CodeElement) -> Result<LowerState, CompileError>
    decreases ce, 0int,
{
    match ce {
        CodeElement::LocalVar(id, init) => {
            if st.next_local >= I32_MAX {
                Err(CompileError::OffsetOverflow)
            } else {
                let k = st.next_local as i32;
                let st1 = LowerState {
                    code: st.code,
                    locals: st.locals.insert(id.name@, k),
                    size_of_locals: st.size_of_locals,
                    next_local: (st.next_local + 1) as u64,
                };
                match init {
                    None => Ok(st1),
                    Some(e) => match lowered_expr(st1.locals, e) {
                        Err(x) => Err(x),
                        Ok((c, v)) => Ok(
                            with_code(
                                st1,
                                st1.code + c.push(
                                    CasmInstruction::Store { left: Operand::DerefFp(k), op: v, incr_ap: false },
                                ),
                            ),
                        ),
                    },
                }
            }
        },
        CodeElement::Return(e) => match lowered_expr(st.locals, e) {
            Err(x) => Err(x),
            Ok((c, v)) => Ok(with_code(st, st.code + c.push(push_value(v)).push(CasmInstruction::Ret))),
        },
        CodeElement::Function(name, args, body) => {
            if args@.len() + 2 > I32_MAX {
                Err(CompileError::OffsetOverflow)
            } else {
                lowered_body(function_entry(st, name, args@, body@), body, body@.len() as int)
            }
        },
        CodeElement::CompoundAssertEqual(a, b) => match lowered_expr(st.locals, a) {
            Err(x) => Err(x),
            Ok((ca, va)) => match lowered_expr(st.locals, b) {
                Err(y) => Err(y),
                Ok((cb, vb)) => Ok(
                    with_code(
                        st,
                        st.code + ca + cb.push(CasmInstruction::Store { left: va, op: vb, incr_ap: false }),
                    ),
                ),
            },
        },
        CodeElement::If(cond, then_body, else_body) => {
            if cond.expr_type != ExprType::Neq {
                Err(CompileError::UnsupportedConstruct)
            } else {
                match cond.left {
                    None => Err(CompileError::UnsupportedConstruct),
                    Some(l) => match cond.right {
                        None => Err(CompileError::UnsupportedConstruct),
                        Some(r) => match binary_node(
                            ExprType::Sub,
                            lowered_expr(st.locals, *l),
                            lowered_expr(st.locals, *r),
                        ) {
                            Err(x) => Err(x),
                            Ok((c, t)) => {
                                let st1 = with_code(st, st.code + c.push(CasmInstruction::JmpIfNeq(0, t)));
                                let pos = st1.code.len() as int;
                                match lowered_body(st1, else_body, else_body@.len() as int) {
                                    Err(x) => Err(x),
                                    Ok(st2) => {
                                        let size = st2.code.len() - pos;
                                        if size + 1 > I32_MAX {
                                            Err(CompileError::OffsetOverflow)
                                        } else {
                                            match lowered_body(st2, then_body, then_body@.len() as int) {
                                                Err(x) => Err(x),
                                                Ok(st3) => Ok(
                                                    with_code(
                                                        st3,
                                                        st3.code.update(
                                                            pos - 1,
                                                            CasmInstruction::JmpIfNeq((size + 1) as i32, t),
                                                        ),
                                                    ),
                                                ),
                                            }
                                        }
                                    },
                                }
                            },
                        },
                    },
                }
            }
        },
        CodeElement::Instruction(t, _) => {
            if t == InstructionType::Ret {
                Ok(with_code(st, st.code.push(CasmInstruction::Ret)))
            } else {
                Err(CompileError::UnsupportedConstruct)
            }
        },
        CodeElement::AllocLocals => Ok(
            with_code(st, st.code.push(CasmInstruction::IncrAp(st.size_of_locals))),
        ),
        _ => Err(CompileError::UnsupportedConstruct),
    }
}

/// Lowering of the first `n` elements of `body`, in order, from state `st`.
pub open spec fn lowered_body(st: LowerState, body: Vec<CodeElement>, n: int) -> Result<LowerState, CompileError>
    decreases body, n,
{
    if n <= 0 || n > body@.len() {
        Ok(st)
    } else {
        match lowered_body(st, body, n - 1) {
            Err(x) => Err(x),
            Ok(st1) => {
                proof {
                    assert(decreases_to!(body => body[n - 1]));
                }
                lowered_element(st1, body[n - 1])
            },
        }
    }
}

proof fn lemma_args_error_stable(locals: Map<Seq<char>, i32>, args: Vec<ExprAssignment>, i: int, n: int)
    requires
        0 <= i <= n <= args@.len(),
        lowered_args(locals, args, i) is Err,
    ensures
        lowered_args(locals, args, n) == lowered_args(locals, args, i),
    decreases n - i,
{
    if n > i {
        lemma_args_error_stable(locals, args, i, n - 1);
    }
}

proof fn lemma_body_error_stable(st: LowerState, body: Vec<CodeElement>, i: int, n: int)
    requires
        0 <= i <= n <= body@.len(),
        lowered_body(st, body, i) is Err,
    ensures
        lowered_body(st, body, n) == lowered_body(st, body, i),
    decreases n - i,
{
    if n > i {
        lemma_body_error_stable(st, body, i, n - 1);
    }
}

/// `b` starts with `a`.
pub open spec fn extends(a: Seq<CasmInstruction>, b: Seq<CasmInstruction>) -> bool {
    &&& a.len() <= b.len()
    &&& forall|k: int| 0 <= k < a.len() ==> #[trigger] b[k] == a[k]
}

proof fn lemma_element_extends(st: LowerState, ce: CodeElement)
    requires
        lowered_element(st, ce) is Ok,
    ensures
        extends(st.code, lowered_element(st, ce)->Ok_0.code),
    decreases ce, 0int,
{
    match ce {
        CodeElement::Function(name, args, body) => {
            let st1 = function_entry(st, name, args@, body@);
            lemma_body_extends(st1, body, body@.len() as int);
        },
        CodeElement::If(cond, then_body, else_body) => {
            let b = binary_node(
                ExprType::Sub,
                lowered_expr(st.locals, *cond.left->Some_0),
                lowered_expr(st.locals, *cond.right->Some_0),
            );
            if b is Ok {
                let (c, t) = b->Ok_0;
                let st1 = with_code(st, st.code + c.push(CasmInstruction::JmpIfNeq(0, t)));
                lemma_body_extends(st1, else_body, else_body@.len() as int);
                if lowered_body(st1, else_body, else_body@.len() as int) is Ok {
                    let st2 = lowered_body(st1, else_body, else_body@.len() as int)->Ok_0;
                    lemma_body_extends(st2, then_body, then_body@.len() as int);
                }
            }
        },
        _ => {},
    }
}

proof fn lemma_body_extends(st: LowerState, body: Vec<CodeElement>, n: int)
    requires
        lowered_body(st, body, n) is Ok,
    ensures
        extends(st.code, lowered_body(st, body, n)->Ok_0.code),
    decreases body, n,
{
    if 0 < n <= body@.len() {
        lemma_body_extends(st, body, n - 1);
        assert(decreases_to!(body => body[n - 1]));
        lemma_element_extends(lowered_body(st, body, n - 1)->Ok_0, body[n - 1]);
    }
}

/// An expression whose value lowers to a literal emits no code.
proof fn lemma_literal_has_no_code(locals: Map<Seq<char>, i32>, e: Expr)
    requires
        lowered_expr(locals, e) is Ok,
        lowered_expr(locals, e)->Ok_0.1 is Int,
    ensures
        lowered_expr(locals, e)->Ok_0.0.len() == 0,
    decreases e,
{
    match e.expr_type {
        ExprType::Add | ExprType::Mul => {
            let l = *e.left->Some_0;
            let r = *e.right->Some_0;
            if lowered_expr(locals, l) is Ok && lowered_expr(locals, l)->Ok_0.1 is Int {
                lemma_literal_has_no_code(locals, l);
            }
            if lowered_expr(locals, r) is Ok && lowered_expr(locals, r)->Ok_0.1 is Int {
                lemma_literal_has_no_code(locals, r);
            }
        },
        _ => {},
    }
}

/// An expression built from integer literals by `+` and `*` alone.
pub open spec fn literal_tree(e: Expr) -> bool
    decreases e,
{
    match e.expr_type {
        ExprType::IntegerLiteral => literal_value(e) is Some,
        ExprType::Add | ExprType::Mul => e.left is Some && e.right is Some && literal_tree(
            *e.left->Some_0,
        ) && literal_tree(*e.right->Some_0),
        _ => false,
    }
}

/// The value of a literal tree.
pub open spec fn eval(e: Expr) -> int
    decreases e,
{
    if e.left is Some && e.right is Some && (e.expr_type == ExprType::Add || e.expr_type
        == ExprType::Mul) {
        if e.expr_type == ExprType::Add {
            eval(*e.left->Some_0) + eval(*e.right->Some_0)
        } else {
            eval(*e.left->Some_0) * eval(*e.right->Some_0)
        }
    } else {
        match literal_value(e) {
            Some(n) => n as int,
            None => 0,
        }
    }
}

/// Every node of a literal tree has a value that fits in 64 bits.
pub open spec fn fits_u64(e: Expr) -> bool
    decreases e,
{
    &&& 0 <= eval(e) <= u64::MAX
    &&& (e.left is Some && e.right is Some && (e.expr_type == ExprType::Add || e.expr_type
        == ExprType::Mul)) ==> fits_u64(*e.left->Some_0) && fits_u64(*e.right->Some_0)
}

/// Constant folding of a whole tree: an expression built from literals by
/// `+` and `*`, whose every partial result fits in 64 bits, lowers to its
/// value and emits no instruction.
pub proof fn lemma_literal_tree_folds(locals: Map<Seq<char>, i32>, e: Expr)
    requires
        literal_tree(e),
        fits_u64(e),
    ensures
        lowered_expr(locals, e) == Ok::<(Seq<CasmInstruction>, Operand), CompileError>(
            (Seq::empty(), Operand::Int(eval(e) as u64)),
        ),
    decreases e,
{
    if e.expr_type == ExprType::Add || e.expr_type == ExprType::Mul {
        let l = *e.left->Some_0;
        let r = *e.right->Some_0;
        lemma_literal_tree_folds(locals, l);
        lemma_literal_tree_folds(locals, r);
        assert(Seq::<CasmInstruction>::empty() + Seq::empty() =~= Seq::empty());
        assert(fits_u64(l) && fits_u64(r));
        assert(0 <= eval(l) <= u64::MAX && 0 <= eval(r) <= u64::MAX);
        let a = eval(l) as u64;
        let b = eval(r) as u64;
        assert(a as int == eval(l) && b as int == eval(r));
        assert(lowered_expr(locals, e) == arith_node(
            e.expr_type,
            Seq::<CasmInstruction>::empty() + Seq::empty(),
            Operand::Int(a),
            Operand::Int(b),
        ));
    } else {
        assert(literal_value(e) is Some);
    }
}

/// Conversely, only a literal tree lowers to a literal: an expression with
/// a name, a subtraction or a call somewhere in it lowers to a memory cell.
pub proof fn lemma_literal_result_is_literal_tree(locals: Map<Seq<char>, i32>, e: Expr)
    requires
        lowered_expr(locals, e) is Ok,
        lowered_expr(locals, e)->Ok_0.1 is Int,
    ensures
        literal_tree(e),
        fits_u64(e),
        lowered_expr(locals, e)->Ok_0.1 == Operand::Int(eval(e) as u64),
    decreases e,
{
    if e.expr_type == ExprType::Add || e.expr_type == ExprType::Mul {
        let l = *e.left->Some_0;
        let r = *e.right->Some_0;
        lemma_literal_result_is_literal_tree(locals, l);
        lemma_literal_result_is_literal_tree(locals, r);
    }
}

/// Constant folding: when both operands of an addition or a product lower to
/// literals, the node emits no instruction and its value is the folded
/// literal, or lowering stops because the result overflows.
pub proof fn lemma_constant_folding(locals: Map<Seq<char>, i32>, e: Expr)
    requires
        e.expr_type == ExprType::Add || e.expr_type == ExprType::Mul,
        e.left is Some,
        e.right is Some,
        lowered_expr(locals, *e.left->Some_0) is Ok,
        lowered_expr(locals, *e.left->Some_0)->Ok_0.1 is Int,
        lowered_expr(locals, *e.right->Some_0) is Ok,
        lowered_expr(locals, *e.right->Some_0)->Ok_0.1 is Int,
    ensures
        ({
            let a = lowered_expr(locals, *e.left->Some_0)->Ok_0.1->Int_0;
            let b = lowered_expr(locals, *e.right->Some_0)->Ok_0.1->Int_0;
            let v = if e.expr_type == ExprType::Add {
                a + b
            } else {
                a * b
            };
            match lowered_expr(locals, e) {
                Ok((c, op)) => c.len() == 0 && op == Operand::Int(v as u64) && v <= u64::MAX,
                Err(x) => x == CompileError::LiteralOverflow && v > u64::MAX,
            }
        }),
{
    lemma_literal_has_no_code(locals, *e.left->Some_0);
    lemma_literal_has_no_code(locals, *e.right->Some_0);
}

proof fn lemma_body_ok_prefix(st: LowerState, body: Vec<CodeElement>, i: int, n: int)
    requires
        0 <= i <= n <= body@.len(),
        lowered_body(st, body, n) is Ok,
    ensures
        lowered_body(st, body, i) is Ok,
{
    if lowered_body(st, body, i) is Err {
        lemma_body_error_stable(st, body, i, n);
    }
}

/// Along a stretch of elements that declares no function and no `if`, each
/// local declaration takes the next slot.
proof fn lemma_next_local(st: LowerState, body: Vec<CodeElement>, n: int)
    requires
        0 <= n <= body@.len(),
        forall|j: int| 0 <= j < n ==> !(#[trigger] body@[j] is Function) && !(body@[j] is If),
        lowered_body(st, body, n) is Ok,
    ensures
        lowered_body(st, body, n)->Ok_0.next_local == st.next_local + count_locals(body@, n),
    decreases n,
{
    if n > 0 {
        lemma_body_ok_prefix(st, body, n - 1, n);
        lemma_next_local(st, body, n - 1);
        assert(!(body@[n - 1] is Function) && !(body@[n - 1] is If));
        let st1 = lowered_body(st, body, n - 1)->Ok_0;
        assert(lowered_body(st, body, n) == lowered_element(st1, body[n - 1]));
        lemma_element_next_local(st1, body[n - 1]);
    }
}

proof fn lemma_element_next_local(st: LowerState, ce: CodeElement)
    requires
        !(ce is Function),
        !(ce is If),
        lowered_element(st, ce) is Ok,
    ensures
        lowered_element(st, ce)->Ok_0.next_local == st.next_local + if ce is LocalVar {
            1int
        } else {
            0int
        },
{
    match ce {
        CodeElement::LocalVar(id, init) => {
            assert(st.next_local < I32_MAX);
        },
        _ => {},
    }
}

/// Within a function, local declarations with no function or `if` among or
/// before them take the slots `0, 1, 2, ...` in order: the one that comes
/// after `k` others is bound to `fp + k` when it is lowered.
pub proof fn lemma_local_slots(st: LowerState, name: Identifier, args: Vec<Identifier>, body: Vec<CodeElement>, i: int)
    requires
        0 <= i < body@.len(),
        body@[i] is LocalVar,
        forall|j: int| 0 <= j <= i ==> !(#[trigger] body@[j] is Function) && !(body@[j] is If),
        lowered_element(st, CodeElement::Function(name, args, body)) is Ok,
    ensures
        ({
            let entry = function_entry(st, name, args@, body@);
            let after = lowered_body(entry, body, i + 1)->Ok_0;
            &&& lowered_body(entry, body, i + 1) is Ok
            &&& after.locals.contains_key(body@[i]->LocalVar_0.name@)
            &&& after.locals[body@[i]->LocalVar_0.name@] == count_locals(body@, i)
            &&& after.next_local == count_locals(body@, i + 1)
        }),
{
    let entry = function_entry(st, name, args@, body@);
    assert(lowered_element(st, CodeElement::Function(name, args, body)) == lowered_body(
        entry,
        body,
        body@.len() as int,
    ));
    lemma_body_ok_prefix(entry, body, i + 1, body@.len() as int);
    lemma_body_ok_prefix(entry, body, i, i + 1);
    lemma_next_local(entry, body, i);
    lemma_next_local(entry, body, i + 1);
    let st_i = lowered_body(entry, body, i)->Ok_0;
    assert(lowered_body(entry, body, i + 1) == lowered_element(st_i, body[i]));
    assert(st_i.next_local < I32_MAX);
}

proof fn lemma_element_keeps_locals(st: LowerState, ce: CodeElement)
    requires
        !(ce is Function),
        !(ce is If),
        !(ce is LocalVar),
        lowered_element(st, ce) is Ok,
    ensures
        lowered_element(st, ce)->Ok_0.locals == st.locals,
{
}

/// Local declarations among the first `n` elements have pairwise distinct
/// names.
pub open spec fn distinct_locals(body: Seq<CodeElement>, n: int) -> bool {
    forall|i: int, j: int|
        0 <= i < j < n && body[i] is LocalVar && body[j] is LocalVar ==> (#[trigger] body[i])->LocalVar_0.name@
            != (#[trigger] body[j])->LocalVar_0.name@
}

proof fn lemma_slots_after(st: LowerState, body: Vec<CodeElement>, n: int)
    requires
        0 <= n <= body@.len(),
        forall|j: int| 0 <= j < n ==> !(#[trigger] body@[j] is Function) && !(body@[j] is If),
        distinct_locals(body@, n),
        lowered_body(st, body, n) is Ok,
    ensures
        forall|i: int|
            0 <= i < n && (#[trigger] body@[i]) is LocalVar ==> {
                let locals = lowered_body(st, body, n)->Ok_0.locals;
                &&& locals.contains_key(body@[i]->LocalVar_0.name@)
                &&& locals[body@[i]->LocalVar_0.name@] == st.next_local + count_locals(body@, i)
            },
    decreases n,
{
    if n > 0 {
        lemma_body_ok_prefix(st, body, n - 1, n);
        lemma_slots_after(st, body, n - 1);
        lemma_next_local(st, body, n - 1);
        let st1 = lowered_body(st, body, n - 1)->Ok_0;
        assert(lowered_body(st, body, n) == lowered_element(st1, body[n - 1]));
        assert(!(body@[n - 1] is Function) && !(body@[n - 1] is If));
        if body@[n - 1] is LocalVar {
            assert(st1.next_local < I32_MAX);
            assert forall|i: int| 0 <= i < n - 1 && (#[trigger] body@[i]) is LocalVar implies body@[i]->LocalVar_0.name@
                != body@[n - 1]->LocalVar_0.name@ by {
                assert(distinct_locals(body@, n));
            }
        } else {
            lemma_element_keeps_locals(st1, body[n - 1]);
        }
    }
}

/// After a whole function body whose local declarations have distinct
/// names, with no function or `if` in it, the `k`-th declaration's name is
/// bound to slot `k`.
pub proof fn lemma_local_slots_at_end(st: LowerState, name: Identifier, args: Vec<Identifier>, body: Vec<CodeElement>)
    requires
        forall|j: int| 0 <= j < body@.len() ==> !(#[trigger] body@[j] is Function) && !(body@[j] is If),
        distinct_locals(body@, body@.len() as int),
        lowered_element(st, CodeElement::Function(name, args, body)) is Ok,
    ensures
        forall|i: int|
            0 <= i < body@.len() && (#[trigger] body@[i]) is LocalVar ==> {
                let locals = lowered_element(st, CodeElement::Function(name, args, body))->Ok_0.locals;
                &&& locals.contains_key(body@[i]->LocalVar_0.name@)
                &&& locals[body@[i]->LocalVar_0.name@] == count_locals(body@, i)
            },
{
    let entry = function_entry(st, name, args@, body@);
    assert(lowered_element(st, CodeElement::Function(name, args, body)) == lowered_body(
        entry,
        body,
        body@.len() as int,
    ));
    lemma_slots_after(entry, body, body@.len() as int);
}

/// Lowers code elements to CASM, keeping a model of the current frame.
pub struct Compiler {
    code_elements: Vec<CodeElement>,
    casm_instructions: Vec<CasmInstruction>,
    local_variables: SymbolTable<i32>,
    size_of_locals: u64,
    current_local_offset: u64,
}

/// A copy of a sequence of instructions.
fn copy_code(v: &Vec<CasmInstruction>) -> (r: Vec<CasmInstruction>)
    ensures
        r@ == v@,
{
    let mut r: Vec<CasmInstruction> = Vec::new();
    let mut i: usize = 0;
    while i < v.len()
        invariant
            i <= v@.len(),
            r@ == v@.subrange(0, i as int),
        decreases v@.len() - i,
    {
        r.push(v[i].clone());
        i = i + 1;
        assert(r@ =~= v@.subrange(0, i as int));
    }
    assert(r@ =~= v@);
    r
}

impl Compiler {
    pub closed spec fn state(&self) -> LowerState {
        LowerState {
            code: self.casm_instructions@,
            locals: self.local_variables@,
            size_of_locals: self.size_of_locals,
            next_local: self.current_local_offset,
        }
    }

    /// The program to compile.
    pub closed spec fn elements(&self) -> Vec<CodeElement> {
        self.code_elements
    }

    pub closed spec fn wf(&self) -> bool {
        self.local_variables.wf()
    }

    /// Everything but the emitted code is as in `other`.
    pub open spec fn same_frame(&self, other: &Self) -> bool {
        &&& self.state().locals == other.state().locals
        &&& self.state().size_of_locals == other.state().size_of_locals
        &&& self.state().next_local == other.state().next_local
        &&& self.elements() == other.elements()
    }

    pub fn new(code_elements: Vec<CodeElement>) -> (r: Self)
        ensures
            r.wf(),
            r.elements() == code_elements,
            r.state() == (LowerState {
                code: Seq::empty(),
                locals: Map::empty(),
                size_of_locals: 0,
                next_local: 0,
            }),
    {
        Self {
            code_elements,
            casm_instructions: Vec::new(),
            local_variables: SymbolTable::new(),
            size_of_locals: 0,
            current_local_offset: 0,
        }
    }

    /// Lowers an expression: emits its code and returns where its value is.
    pub fn compile_expr(&mut self, expr: Expr) -> (r: Result<Operand, CompileError>)
        requires
            old(self).wf(),
        ensures
            final(self).wf(),
            final(self).same_frame(old(self)),
            match lowered_expr(old(self).state().locals, expr) {
                Ok((c, v)) => r == Ok::<Operand, CompileError>(v) && final(self).state().code
                    == old(self).state().code + c,
                Err(x) => r == Err::<Operand, CompileError>(x),
            },
    {
        self.lower_expr(&expr)
    }

    fn lower_expr(&mut self, e: &Expr) -> (r: Result<Operand, CompileError>)
        requires
            old(self).wf(),
        ensures
            final(self).wf(),
            final(self).same_frame(old(self)),
            match lowered_expr(old(self).state().locals, *e) {
                Ok((c, v)) => r == Ok::<Operand, CompileError>(v) && final(self).state().code
                    == old(self).state().code + c,
                Err(x) => r == Err::<Operand, CompileError>(x),
            },
        decreases e, 2int,
    {
        match e.expr_type {
            ExprType::IntegerLiteral => self.compile_int_literal(e),
            ExprType::Identifier => self.compile_identifier(e),
            ExprType::Add => self.compile_add(e),
            ExprType::Sub => self.compile_sub(e),
            ExprType::Mul => self.compile_mul(e),
            ExprType::FunctionCall => self.compile_function_call(e),
            _ => Err(CompileError::UnsupportedConstruct),
        }
    }

    fn compile_int_literal(&mut self, e: &Expr) -> (r: Result<Operand, CompileError>)
        requires
            e.expr_type == ExprType::IntegerLiteral,
        ensures
            *final(self) == *old(self),
            r == (match literal_value(*e) {
                Some(n) => Ok(Operand::Int(n)),
                None => Err(CompileError::UnsupportedConstruct),
            }),
    {
        match &e.token {
            Some(Token::Int(n)) => Ok(Operand::Int(*n)),
            Some(Token::HexInt(n)) => Ok(Operand::Int(*n)),
            _ => Err(CompileError::UnsupportedConstruct),
        }
    }

    fn compile_identifier(&mut self, e: &Expr) -> (r: Result<Operand, CompileError>)
        requires
            old(self).wf(),
            e.expr_type == ExprType::Identifier,
        ensures
            *final(self) == *old(self),
            match lowered_expr(old(self).state().locals, *e) {
                Ok((c, v)) => r == Ok::<Operand, CompileError>(v) && c.len() == 0,
                Err(x) => r == Err::<Operand, CompileError>(x),
            },
    {
        match &e.ident {
            Some(id) => match self.local_variables.get(&id.name) {
                Some(k) => Ok(Operand::DerefFp(k)),
                None => Err(CompileError::UnknownIdentifier(id.name.clone())),
            },
            None => Err(CompileError::UnsupportedConstruct),
        }
    }

    /// Emits the instruction of an addition or a product whose operands are
    /// at `p` and `q`, or folds two literals.
    fn emit_arith(&mut self, kind: ExprType, p: Operand, q: Operand) -> (r: Result<Operand, CompileError>)
        requires
            kind == ExprType::Add || kind == ExprType::Mul,
        ensures
            final(self).wf() == old(self).wf(),
            final(self).same_frame(old(self)),
            match arith_node(kind, old(self).state().code, p, q) {
                Ok((c, v)) => r == Ok::<Operand, CompileError>(v) && final(self).state().code == c,
                Err(x) => r == Err::<Operand, CompileError>(x),
            },
    {
        match (p, q) {
            (Operand::Int(n), Operand::Int(m)) => {
                let v = if kind == ExprType::Add {
                    n.checked_add(m)
                } else {
                    n.checked_mul(m)
                };
                match v {
                    Some(v) => Ok(Operand::Int(v)),
                    None => Err(CompileError::LiteralOverflow),
                }
            },
            _ => {
                let (x, y) = match p {
                    Operand::Int(_) => (q, p),
                    _ => (p, q),
                };
                if kind == ExprType::Add {
                    self.casm_instructions.push(
                        CasmInstruction::Add { left: Operand::DerefAp(0), op1: x, op2: y },
                    );
                } else {
                    self.casm_instructions.push(
                        CasmInstruction::Mul { left: Operand::DerefAp(0), op1: x, op2: y },
                    );
                }
                Ok(Operand::DerefAp(-1))
            },
        }
    }

    /// Lowers both operands of a binary node, left first.
    fn compile_operands(&mut self, e: &Expr) -> (r: Result<(Operand, Operand), CompileError>)
        requires
            old(self).wf(),
        ensures
            final(self).wf(),
            final(self).same_frame(old(self)),
            e.left is None || e.right is None ==> r == Err::<(Operand, Operand), CompileError>(
                CompileError::UnsupportedConstruct,
            ),
            e.left is Some && e.right is Some ==> {
                let a = lowered_expr(old(self).state().locals, *e.left->Some_0);
                let b = lowered_expr(old(self).state().locals, *e.right->Some_0);
                match a {
                    Err(x) => r == Err::<(Operand, Operand), CompileError>(x),
                    Ok((c1, p)) => match b {
                        Err(y) => r == Err::<(Operand, Operand), CompileError>(y),
                        Ok((c2, q)) => r == Ok::<(Operand, Operand), CompileError>((p, q))
                            && final(self).state().code == old(self).state().code + (c1 + c2),
                    },
                }
            },
        decreases e, 0int,
    {
        let l = match &e.left {
            Some(l) => l,
            None => {
                return Err(CompileError::UnsupportedConstruct);
            },
        };
        let r = match &e.right {
            Some(r) => r,
            None => {
                return Err(CompileError::UnsupportedConstruct);
            },
        };
        let ghost c0 = self.state().code;
        let p = match self.lower_expr(l) {
            Ok(v) => v,
            Err(x) => {
                return Err(x);
            },
        };
        let ghost c1 = self.state().code;
        let q = match self.lower_expr(r) {
            Ok(v) => v,
            Err(x) => {
                return Err(x);
            },
        };
        assert(self.state().code =~= c0 + (lowered_expr(old(self).state().locals, **l)->Ok_0.0
            + lowered_expr(old(self).state().locals, **r)->Ok_0.0));
        Ok((p, q))
    }

    fn compile_add(&mut self, e: &Expr) -> (r: Result<Operand, CompileError>)
        requires
            old(self).wf(),
            e.expr_type == ExprType::Add,
        ensures
            final(self).wf(),
            final(self).same_frame(old(self)),
            match lowered_expr(old(self).state().locals, *e) {
                Ok((c, v)) => r == Ok::<Operand, CompileError>(v) && final(self).state().code
                    == old(self).state().code + c,
                Err(x) => r == Err::<Operand, CompileError>(x),
            },
        decreases e, 1int,
    {
        let ghost c0 = self.state().code;
        match self.compile_operands(e) {
            Ok((p, q)) => {
                let ghost mid = self.state().code;
                let r = self.emit_arith(ExprType::Add, p, q);
                proof {
                    let c12 = mid.subrange(c0.len() as int, mid.len() as int);
                    assert(mid =~= c0 + c12);
                    match arith_node(ExprType::Add, c12, p, q) {
                        Ok((c, v)) => {
                            assert(self.state().code =~= c0 + c);
                        },
                        Err(_) => {},
                    }
                }
                r
            },
            Err(x) => Err(x),
        }
    }

    fn compile_mul(&mut self, e: &Expr) -> (r: Result<Operand, CompileError>)
        requires
            old(self).wf(),
            e.expr_type == ExprType::Mul,
        ensures
            final(self).wf(),
            final(self).same_frame(old(self)),
            match lowered_expr(old(self).state().locals, *e) {
                Ok((c, v)) => r == Ok::<Operand, CompileError>(v) && final(self).state().code
                    == old(self).state().code + c,
                Err(x) => r == Err::<Operand, CompileError>(x),
            },
        decreases e, 1int,
    {
        let ghost c0 = self.state().code;
        match self.compile_operands(e) {
            Ok((p, q)) => {
                let ghost mid = self.state().code;
                let r = self.emit_arith(ExprType::Mul, p, q);
                proof {
                    let c12 = mid.subrange(c0.len() as int, mid.len() as int);
                    assert(mid =~= c0 + c12);
                    match arith_node(ExprType::Mul, c12, p, q) {
                        Ok((c, v)) => {
                            assert(self.state().code =~= c0 + c);
                        },
                        Err(_) => {},
                    }
                }
                r
            },
            Err(x) => Err(x),
        }
    }

    /// `l - r` is lowered as the assertion `l = [ap] + r`, which leaves the
    /// difference at `[ap - 1]`.
    fn compile_sub(&mut self, e: &Expr) -> (r: Result<Operand, CompileError>)
        requires
            old(self).wf(),
            e.expr_type == ExprType::Sub,
        ensures
            final(self).wf(),
            final(self).same_frame(old(self)),
            match lowered_expr(old(self).state().locals, *e) {
                Ok((c, v)) => r == Ok::<Operand, CompileError>(v) && final(self).state().code
                    == old(self).state().code + c,
                Err(x) => r == Err::<Operand, CompileError>(x),
            },
        decreases e, 1int,
    {
        let ghost c0 = self.state().code;
        match self.compile_operands(e) {
            Ok((p, q)) => {
                self.casm_instructions.push(
                    CasmInstruction::Add { left: p, op1: Operand::DerefAp(0), op2: q },
                );
                proof {
                    let lw = lowered_expr(old(self).state().locals, *e.left->Some_0)->Ok_0.0;
                    let rw = lowered_expr(old(self).state().locals, *e.right->Some_0)->Ok_0.0;
                    assert(self.state().code =~= c0 + (lw + rw).push(
                        CasmInstruction::Add { left: p, op1: Operand::DerefAp(0), op2: q },
                    ));
                }
                Ok(Operand::DerefAp(-1))
            },
            Err(x) => Err(x),
        }
    }

    /// Lowers the arguments, pushes their values in order, then calls; the
    /// callee leaves its result at `[ap - 1]`.
    fn compile_function_call(&mut self, e: &Expr) -> (r: Result<Operand, CompileError>)
        requires
            old(self).wf(),
            e.expr_type == ExprType::FunctionCall,
        ensures
            final(self).wf(),
            final(self).same_frame(old(self)),
            match lowered_expr(old(self).state().locals, *e) {
                Ok((c, v)) => r == Ok::<Operand, CompileError>(v) && final(self).state().code
                    == old(self).state().code + c,
                Err(x) => r == Err::<Operand, CompileError>(x),
            },
        decreases e, 1int,
    {
        let func_name = match &e.ident {
            Some(id) => id.name.clone(),
            None => {
                return Err(CompileError::UnsupportedConstruct);
            },
        };
        let ghost locals = self.state().locals;
        let ghost c0 = self.state().code;
        let mut arg_refs: Vec<Operand> = Vec::new();
        let n = e.args.len();
        let mut i: usize = 0;
        while i < n
            invariant
                n == e.args@.len(),
                e.ident is Some,
                e.expr_type == ExprType::FunctionCall,
                i <= n,
                self.wf(),
                self.same_frame(old(self)),
                locals == old(self).state().locals,
                c0 == old(self).state().code,
                lowered_args(locals, e.args, i as int) is Ok,
                self.state().code == c0 + lowered_args(locals, e.args, i as int)->Ok_0.0,
                arg_refs@ == lowered_args(locals, e.args, i as int)->Ok_0.1,
            decreases n - i,
        {
            match &e.args[i] {
                ExprAssignment::Expr(x) => {
                    let ghost before = self.state().code;
                    match self.lower_expr(x) {
                        Ok(v) => {
                            arg_refs.push(v);
                            assert(self.state().code =~= c0 + lowered_args(
                                locals,
                                e.args,
                                i + 1,
                            )->Ok_0.0);
                        },
                        Err(y) => {
                            assert(lowered_args(locals, e.args, i + 1) == Err::<(Seq<CasmInstruction>, Seq<Operand>), CompileError>(y));
                            proof {
                                lemma_args_error_stable(locals, e.args, i + 1, n as int);
                            }
                            return Err(y);
                        },
                    }
                },
                ExprAssignment::Assign(_, _) => {
                    assert(lowered_args(locals, e.args, i + 1) is Err);
                    proof {
                        lemma_args_error_stable(locals, e.args, i + 1, n as int);
                    }
                    return Err(CompileError::UnsupportedConstruct);
                },
            }
            i = i + 1;
        }
        let ghost c1 = self.state().code;
        let mut j: usize = 0;
        while j < arg_refs.len()
            invariant
                j <= arg_refs@.len(),
                self.wf(),
                self.same_frame(old(self)),
                self.state().code == c1 + push_all(arg_refs@.subrange(0, j as int)),
            decreases arg_refs@.len() - j,
        {
            self.casm_instructions.push(
                CasmInstruction::Store { left: Operand::DerefAp(0), op: arg_refs[j], incr_ap: true },
            );
            j = j + 1;
            assert(push_all(arg_refs@.subrange(0, j as int)) =~= push_all(
                arg_refs@.subrange(0, j - 1),
            ).push(push_value(arg_refs@[j - 1])));
        }
        assert(arg_refs@.subrange(0, j as int) =~= arg_refs@);
        self.casm_instructions.push(CasmInstruction::Call(func_name));
        assert(self.state().code =~= c0 + (lowered_args(locals, e.args, n as int)->Ok_0.0 + push_all(
            arg_refs@,
        ).push(CasmInstruction::Call(func_name))));
        Ok(Operand::DerefAp(-1))
    }
}

impl Compiler {
    /// Lowers the whole program and returns the CASM stream.
    pub fn compile(&mut self) -> (r: Result<Vec<CasmInstruction>, CompileError>)
        requires
            old(self).wf(),
        ensures
            final(self).wf(),
            final(self).elements() == old(self).elements(),
            match lowered_body(old(self).state(), old(self).elements(), old(self).elements()@.len() as int) {
                Ok(st) => r is Ok && r->Ok_0@ == st.code && final(self).state() == st,
                Err(x) => r == Err::<Vec<CasmInstruction>, CompileError>(x),
            },
    {
        let mut elements: Vec<CodeElement> = Vec::new();
        std::mem::swap(&mut elements, &mut self.code_elements);
        let res = self.lower_body(&elements);
        std::mem::swap(&mut elements, &mut self.code_elements);
        match res {
            Ok(()) => Ok(copy_code(&self.casm_instructions)),
            Err(x) => Err(x),
        }
    }

    /// Lowers one code element.
    pub fn compile_code_element(&mut self, code_element: CodeElement) -> (r: Result<(), CompileError>)
        requires
            old(self).wf(),
        ensures
            final(self).wf(),
            final(self).elements() == old(self).elements(),
            match lowered_element(old(self).state(), code_element) {
                Ok(st) => r is Ok && final(self).state() == st,
                Err(x) => r == Err::<(), CompileError>(x),
            },
    {
        self.lower_element(&code_element)
    }

    /// Lowers a function: a label, then its body in a fresh frame where the
    /// arguments sit below `fp` and the locals from `fp` up.
    pub fn compile_function(&mut self, name: Identifier, args: Vec<Identifier>, body: Vec<CodeElement>) -> (r: Result<(), CompileError>)
        requires
            old(self).wf(),
        ensures
            final(self).wf(),
            final(self).elements() == old(self).elements(),
            match lowered_element(old(self).state(), CodeElement::Function(name, args, body)) {
                Ok(st) => r is Ok && final(self).state() == st,
                Err(x) => r == Err::<(), CompileError>(x),
            },
    {
        let ce = CodeElement::Function(name, args, body);
        self.lower_element(&ce)
    }

    fn lower_body(&mut self, body: &Vec<CodeElement>) -> (r: Result<(), CompileError>)
        requires
            old(self).wf(),
        ensures
            final(self).wf(),
            final(self).elements() == old(self).elements(),
            match lowered_body(old(self).state(), *body, body@.len() as int) {
                Ok(st) => r is Ok && final(self).state() == st,
                Err(x) => r == Err::<(), CompileError>(x),
            },
        decreases body, 3int,
    {
        let ghost st0 = self.state();
        let n = body.len();
        let mut i: usize = 0;
        while i < n
            invariant
                n == body@.len(),
                i <= n,
                self.wf(),
                self.elements() == old(self).elements(),
                st0 == old(self).state(),
                lowered_body(st0, *body, i as int) == Ok::<LowerState, CompileError>(self.state()),
            decreases n - i,
        {
            match self.lower_element(&body[i]) {
                Ok(()) => {},
                Err(x) => {
                    proof {
                        lemma_body_error_stable(st0, *body, i + 1, n as int);
                    }
                    return Err(x);
                },
            }
            i = i + 1;
        }
        Ok(())
    }

    fn lower_element(&mut self, ce: &CodeElement) -> (r: Result<(), CompileError>)
        requires
            old(self).wf(),
        ensures
            final(self).wf(),
            final(self).elements() == old(self).elements(),
            match lowered_element(old(self).state(), *ce) {
                Ok(st) => r is Ok && final(self).state() == st,
                Err(x) => r == Err::<(), CompileError>(x),
            },
        decreases ce, 2int,
    {
        match ce {
            CodeElement::LocalVar(ident, expr) => self.compile_local_var(ident, expr),
            CodeElement::Return(expr) => self.compile_return(expr),
            CodeElement::Function(_, _, _) => self.enter_function(ce),
            CodeElement::CompoundAssertEqual(expr1, expr2) => self.compile_compound_assert_equal(
                expr1,
                expr2,
            ),
            CodeElement::If(_, _, _) => self.compile_if(ce),
            CodeElement::Instruction(instr, incr_ap) => self.compile_instruction(*instr, *incr_ap),
            CodeElement::AllocLocals => self.compile_alloc_locals(),
            _ => Err(CompileError::UnsupportedConstruct),
        }
    }

    fn enter_function(&mut self, ce: &CodeElement) -> (r: Result<(), CompileError>)
        requires
            old(self).wf(),
            ce is Function,
        ensures
            final(self).wf(),
            final(self).elements() == old(self).elements(),
            match lowered_element(old(self).state(), *ce) {
                Ok(st) => r is Ok && final(self).state() == st,
                Err(x) => r == Err::<(), CompileError>(x),
            },
        decreases ce, 1int,
    {
        let (name, args, body) = match ce {
            CodeElement::Function(name, args, body) => (name, args, body),
            _ => {
                return Err(CompileError::UnsupportedConstruct);
            },
        };
        let n_args = args.len();
        if n_args > 0x7fff_fffd {
            return Err(CompileError::OffsetOverflow);
        }
        self.local_variables.clear();
        self.current_local_offset = 0;
        let mut count: u64 = 0;
        let mut i: usize = 0;
        while i < body.len()
            invariant
                i <= body@.len(),
                count == count_locals(body@, i as int),
                count <= i,
            decreases body@.len() - i,
        {
            match &body[i] {
                CodeElement::LocalVar(_, _) => {
                    count = count + 1;
                },
                _ => {},
            }
            i = i + 1;
        }
        self.size_of_locals = count;
        self.casm_instructions.push(CasmInstruction::Label(name.name.clone()));
        let mut j: usize = 0;
        while j < n_args
            invariant
                n_args == args@.len(),
                n_args <= 0x7fff_fffd,
                j <= n_args,
                self.wf(),
                self.elements() == old(self).elements(),
                self.state().code == old(self).state().code.push(CasmInstruction::Label(name.name)),
                self.state().size_of_locals == count_locals(body@, body@.len() as int),
                self.state().next_local == 0,
                self.state().locals == arg_slots(args@, n_args as int, j as int),
            decreases n_args - j,
        {
            let slot = j as i32 - (n_args as i32 + 2);
            self.local_variables.insert(args[j].name.clone(), slot);
            j = j + 1;
        }
        assert(self.state() == function_entry(old(self).state(), *name, args@, body@));
        self.lower_body(body)
    }

    fn compile_local_var(&mut self, ident: &Identifier, expr: &Option<Expr>) -> (r: Result<(), CompileError>)
        requires
            old(self).wf(),
        ensures
            final(self).wf(),
            final(self).elements() == old(self).elements(),
            match lowered_element(old(self).state(), CodeElement::LocalVar(*ident, *expr)) {
                Ok(st) => r is Ok && final(self).state() == st,
                Err(x) => r == Err::<(), CompileError>(x),
            },
    {
        if self.current_local_offset >= 0x7fff_ffff {
            return Err(CompileError::OffsetOverflow);
        }
        let slot = self.current_local_offset as i32;
        self.local_variables.insert(ident.name.clone(), slot);
        self.current_local_offset = self.current_local_offset + 1;
        match expr {
            Some(e) => {
                let ghost c0 = self.state().code;
                let value = match self.lower_expr(e) {
                    Ok(v) => v,
                    Err(x) => {
                        return Err(x);
                    },
                };
                let instr = CasmInstruction::Store { left: Operand::DerefFp(slot), op: value, incr_ap: false };
                self.casm_instructions.push(instr);
                assert(self.state().code =~= c0 + lowered_expr(
                    self.state().locals,
                    *e,
                )->Ok_0.0.push(instr));
                Ok(())
            },
            None => Ok(()),
        }
    }

    fn compile_return(&mut self, expr: &Expr) -> (r: Result<(), CompileError>)
        requires
            old(self).wf(),
        ensures
            final(self).wf(),
            final(self).elements() == old(self).elements(),
            match lowered_element(old(self).state(), CodeElement::Return(*expr)) {
                Ok(st) => r is Ok && final(self).state() == st,
                Err(x) => r == Err::<(), CompileError>(x),
            },
    {
        let value = match self.lower_expr(expr) {
            Ok(v) => v,
            Err(x) => {
                return Err(x);
            },
        };
        let instr = CasmInstruction::Store { left: Operand::DerefAp(0), op: value, incr_ap: true };
        self.casm_instructions.push(instr);
        self.casm_instructions.push(CasmInstruction::Ret);
        assert(self.state().code =~= old(self).state().code + lowered_expr(
            old(self).state().locals,
            *expr,
        )->Ok_0.0.push(instr).push(CasmInstruction::Ret));
        Ok(())
    }

    /// `a = b` becomes a store of `b` into `a`, which the machine checks as
    /// an equality when `a` is already set.
    fn compile_compound_assert_equal(&mut self, expr1: &Expr, expr2: &Expr) -> (r: Result<(), CompileError>)
        requires
            old(self).wf(),
        ensures
            final(self).wf(),
            final(self).elements() == old(self).elements(),
            match lowered_element(old(self).state(), CodeElement::CompoundAssertEqual(*expr1, *expr2)) {
                Ok(st) => r is Ok && final(self).state() == st,
                Err(x) => r == Err::<(), CompileError>(x),
            },
    {
        let value1 = match self.lower_expr(expr1) {
            Ok(v) => v,
            Err(x) => {
                return Err(x);
            },
        };
        let value2 = match self.lower_expr(expr2) {
            Ok(v) => v,
            Err(x) => {
                return Err(x);
            },
        };
        let instr = CasmInstruction::Store { left: value1, op: value2, incr_ap: false };
        self.casm_instructions.push(instr);
        assert(self.state().code =~= old(self).state().code + (lowered_expr(
            old(self).state().locals,
            *expr1,
        )->Ok_0.0 + lowered_expr(old(self).state().locals, *expr2)->Ok_0.0.push(instr)));
        Ok(())
    }

    /// `if a != b { then } else { else }`: computes `a - b`, jumps over the
    /// else body when it is not zero, and falls into the then body placed
    /// after it.
    fn compile_if(&mut self, ce: &CodeElement) -> (r: Result<(), CompileError>)
        requires
            old(self).wf(),
            ce is If,
        ensures
            final(self).wf(),
            final(self).elements() == old(self).elements(),
            match lowered_element(old(self).state(), *ce) {
                Ok(st) => r is Ok && final(self).state() == st,
                Err(x) => r == Err::<(), CompileError>(x),
            },
        decreases ce, 1int,
    {
        let (cond, body, else_body) = match ce {
            CodeElement::If(cond, body, else_body) => (cond, body, else_body),
            _ => {
                return Err(CompileError::UnsupportedConstruct);
            },
        };
        if cond.expr_type != ExprType::Neq {
            return Err(CompileError::UnsupportedConstruct);
        }
        let ghost c0 = self.state().code;
        let (p, q) = match self.compile_operands(cond) {
            Ok(ops) => ops,
            Err(x) => {
                return Err(x);
            },
        };
        self.casm_instructions.push(CasmInstruction::Add { left: p, op1: Operand::DerefAp(0), op2: q });
        let test_value = Operand::DerefAp(-1);
        self.casm_instructions.push(CasmInstruction::JmpIfNeq(0, test_value));
        let pos = self.casm_instructions.len();
        proof {
            let lw = lowered_expr(old(self).state().locals, *cond.left->Some_0)->Ok_0.0;
            let rw = lowered_expr(old(self).state().locals, *cond.right->Some_0)->Ok_0.0;
            assert(self.state().code =~= c0 + (lw + rw).push(
                CasmInstruction::Add { left: p, op1: Operand::DerefAp(0), op2: q },
            ).push(CasmInstruction::JmpIfNeq(0, test_value)));
        }
        let ghost st1 = self.state();
        match self.lower_body(else_body) {
            Ok(()) => {},
            Err(x) => {
                return Err(x);
            },
        }
        proof {
            lemma_body_extends(st1, *else_body, else_body@.len() as int);
        }
        let ghost st2 = self.state();
        let else_body_size = self.casm_instructions.len() - pos;
        if else_body_size >= 0x7fff_ffff {
            return Err(CompileError::OffsetOverflow);
        }
        match self.lower_body(body) {
            Ok(()) => {},
            Err(x) => {
                return Err(x);
            },
        }
        proof {
            lemma_body_extends(st2, *body, body@.len() as int);
        }
        self.casm_instructions.set(
            pos - 1,
            CasmInstruction::JmpIfNeq(else_body_size as i32 + 1, test_value),
        );
        Ok(())
    }

    /// Only `ret` is lowered; it emits `Ret` whether or not `, ap++` was
    /// written after it.
    fn compile_instruction(&mut self, instr: InstructionType, incr_ap: bool) -> (r: Result<(), CompileError>)
        requires
            old(self).wf(),
        ensures
            final(self).wf(),
            final(self).elements() == old(self).elements(),
            match lowered_element(old(self).state(), CodeElement::Instruction(instr, incr_ap)) {
                Ok(st) => r is Ok && final(self).state() == st,
                Err(x) => r == Err::<(), CompileError>(x),
            },
    {
        match instr {
            InstructionType::Ret => {
                self.casm_instructions.push(CasmInstruction::Ret);
                Ok(())
            },
            _ => Err(CompileError::UnsupportedConstruct),
        }
    }

    /// Reserves the frame's locals: `ap += size_of_locals`.
    fn compile_alloc_locals(&mut self) -> (r: Result<(), CompileError>)
        requires
            old(self).wf(),
        ensures
            final(self).wf(),
            final(self).elements() == old(self).elements(),
            match lowered_element(old(self).state(), CodeElement::AllocLocals) {
                Ok(st) => r is Ok && final(self).state() == st,
                Err(x) => r == Err::<(), CompileError>(x),
            },
    {
        self.casm_instructions.push(CasmInstruction::IncrAp(self.size_of_locals));
        Ok(())
    }
}

} // verus!

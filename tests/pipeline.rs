use casm_compiler::assembler::{build_instruction, Assembler, Instruction};
use casm_compiler::ast::{CodeElement, Expr, ExprAssignment, ExprType, Identifier, InstructionType, Type};
use casm_compiler::casm::{CasmInstruction, Operand};
use casm_compiler::error::CompileError;
use casm_compiler::lexer::Token;
use casm_compiler::lower_to_casm::Compiler;

fn ident(name: &str) -> Identifier {
    Identifier { name: name.to_string() }
}

fn lit(n: u64) -> Expr {
    Expr::new_terminal(ExprType::IntegerLiteral, Token::Int(n))
}

fn var(name: &str) -> Expr {
    Expr::new_identifier(ident(name))
}

fn func(name: &str, args: &[&str], body: Vec<CodeElement>) -> CodeElement {
    CodeElement::Function(ident(name), args.iter().map(|a| ident(a)).collect(), body)
}

fn lower(program: Vec<CodeElement>) -> Result<Vec<CasmInstruction>, CompileError> {
    Compiler::new(program).compile()
}

fn assemble(casm: Vec<CasmInstruction>) -> Assembler {
    let mut assembler = Assembler::new();
    assembler.casm = casm;
    assembler.resolve_calls().unwrap();
    assembler.build_instructions().unwrap();
    assembler
}

#[test]
fn ret_only_function() {
    let casm = lower(vec![func("f", &[], vec![CodeElement::Instruction(InstructionType::Ret, false)])]).unwrap();
    assert_eq!(casm, vec![CasmInstruction::Label("f".to_string()), CasmInstruction::Ret]);
    let assembler = assemble(casm);
    assert_eq!(assembler.function_addresses.entries(), vec![("f".to_string(), 0u64)]);
    assert_eq!(assembler.data(), vec![0x208b7fff7fff7ffe]);
}

#[test]
fn return_literal() {
    let casm = lower(vec![func("f", &[], vec![CodeElement::Return(lit(7))])]).unwrap();
    assert_eq!(
        casm,
        vec![
            CasmInstruction::Label("f".to_string()),
            CasmInstruction::Store { left: Operand::DerefAp(0), op: Operand::Int(7), incr_ap: true },
            CasmInstruction::Ret,
        ]
    );
    let assembler = assemble(casm);
    let first = &assembler.instructions[0];
    assert_eq!((first.offdst, first.offop0, first.offop1), (0, -1, 1));
    assert_eq!(
        (first.dst, first.op0, first.op1, first.res, first.pc_update, first.ap_update, first.opcode),
        (0, 1, 1, 0, 0, 2, 4)
    );
    assert_eq!(first.to_bytes(), (0x480680017fff8000, Some(7)));
    assert_eq!(assembler.data(), vec![0x480680017fff8000, 7, 0x208b7fff7fff7ffe]);
}

fn two_functions() -> Vec<CodeElement> {
    vec![
        func("f", &["x"], vec![CodeElement::Return(var("x"))]),
        func(
            "g",
            &[],
            vec![CodeElement::Return(Expr::new_function_call(
                "f".to_string(),
                vec![ExprAssignment::Expr(lit(3))],
            ))],
        ),
    ]
}

#[test]
fn call_with_literal_argument() {
    let casm = lower(two_functions()).unwrap();
    assert_eq!(
        casm,
        vec![
            CasmInstruction::Label("f".to_string()),
            CasmInstruction::Store { left: Operand::DerefAp(0), op: Operand::DerefFp(-3), incr_ap: true },
            CasmInstruction::Ret,
            CasmInstruction::Label("g".to_string()),
            CasmInstruction::Store { left: Operand::DerefAp(0), op: Operand::Int(3), incr_ap: true },
            CasmInstruction::Call("f".to_string()),
            CasmInstruction::Store { left: Operand::DerefAp(0), op: Operand::DerefAp(-1), incr_ap: true },
            CasmInstruction::Ret,
        ]
    );
    let assembler = assemble(casm);
    // f sits at 0; g at 2; the call follows a two-word push, at 4.
    assert_eq!(
        assembler.function_addresses.entries(),
        vec![("f".to_string(), 0u64), ("g".to_string(), 2u64)]
    );
    assert_eq!(assembler.casm[3], CasmInstruction::CallRel(-4));
    assert!(!assembler.casm.iter().any(|c| matches!(c, CasmInstruction::Label(_) | CasmInstruction::Call(_))));
    let call = &assembler.instructions[3];
    assert_eq!(call.imm, Some(0x7fff_ffff - 4));
    assert_eq!(call.to_bytes().0, 0x1104800180018000);
}

#[test]
fn forward_call_has_positive_distance() {
    let mut assembler = Assembler::new();
    assembler.casm = vec![
        CasmInstruction::Call("h".to_string()),
        CasmInstruction::Ret,
        CasmInstruction::Label("h".to_string()),
        CasmInstruction::Ret,
    ];
    assembler.resolve_calls().unwrap();
    assert_eq!(
        assembler.casm,
        vec![CasmInstruction::CallRel(3), CasmInstruction::Ret, CasmInstruction::Ret]
    );
    assembler.build_instructions().unwrap();
    assert_eq!(assembler.instructions[0].imm, Some(3));
}

fn if_program() -> Vec<CodeElement> {
    let assign = |n: u64| CodeElement::CompoundAssertEqual(var("c"), lit(n));
    vec![func(
        "f",
        &[],
        vec![
            CodeElement::LocalVar(ident("a"), None),
            CodeElement::LocalVar(ident("b"), None),
            CodeElement::LocalVar(ident("c"), None),
            CodeElement::If(
                Expr::new_binary(ExprType::Neq, var("a"), var("b")),
                vec![assign(1)],
                vec![assign(2)],
            ),
        ],
    )]
}

#[test]
fn if_jumps_over_else_body() {
    let casm = lower(if_program()).unwrap();
    let jumps: Vec<&CasmInstruction> =
        casm.iter().filter(|c| matches!(c, CasmInstruction::JmpIfNeq(_, _))).collect();
    assert_eq!(jumps.len(), 1);
    assert_eq!(
        casm,
        vec![
            CasmInstruction::Label("f".to_string()),
            CasmInstruction::Add { left: Operand::DerefFp(0), op1: Operand::DerefAp(0), op2: Operand::DerefFp(1) },
            CasmInstruction::JmpIfNeq(2, Operand::DerefAp(-1)),
            CasmInstruction::Store { left: Operand::DerefFp(2), op: Operand::Int(2), incr_ap: false },
            CasmInstruction::Store { left: Operand::DerefFp(2), op: Operand::Int(1), incr_ap: false },
        ]
    );
}

#[test]
fn if_with_longer_else_body() {
    let assign = |n: u64| CodeElement::CompoundAssertEqual(var("c"), lit(n));
    let program = vec![func(
        "f",
        &["a", "b", "c"],
        vec![CodeElement::If(
            Expr::new_binary(ExprType::Neq, var("a"), lit(5)),
            vec![assign(1)],
            vec![assign(2), assign(3), CodeElement::Instruction(InstructionType::Ret, false)],
        )],
    )];
    let casm = lower(program).unwrap();
    assert_eq!(casm[2], CasmInstruction::JmpIfNeq(4, Operand::DerefAp(-1)));
}

#[test]
fn if_requires_inequality() {
    let program = vec![func(
        "f",
        &["a"],
        vec![CodeElement::If(Expr::new_binary(ExprType::Eq, var("a"), lit(1)), vec![], vec![])],
    )];
    assert_eq!(lower(program), Err(CompileError::UnsupportedConstruct));
}

#[test]
fn constant_folded_local() {
    let mut compiler = Compiler::new(vec![]);
    let init = Expr::new_binary(ExprType::Add, lit(2), Expr::new_binary(ExprType::Mul, lit(3), lit(4)));
    compiler.compile_code_element(CodeElement::LocalVar(ident("x"), Some(init))).unwrap();
    assert_eq!(
        compiler.compile().unwrap(),
        vec![CasmInstruction::Store { left: Operand::DerefFp(0), op: Operand::Int(14), incr_ap: false }]
    );
}

#[test]
fn folding_two_literals_emits_nothing() {
    let mut compiler = Compiler::new(vec![]);
    let op = compiler.compile_expr(Expr::new_binary(ExprType::Mul, lit(6), lit(7))).unwrap();
    assert_eq!(op, Operand::Int(42));
    assert_eq!(compiler.compile().unwrap(), vec![]);
}

#[test]
fn folding_overflow_is_an_error() {
    let mut compiler = Compiler::new(vec![]);
    let e = Expr::new_binary(ExprType::Add, lit(u64::MAX), lit(1));
    assert_eq!(compiler.compile_expr(e), Err(CompileError::LiteralOverflow));
}

#[test]
fn literal_moves_to_second_operand() {
    let program = vec![func(
        "f",
        &["x"],
        vec![CodeElement::Return(Expr::new_binary(ExprType::Add, lit(5), var("x")))],
    )];
    let casm = lower(program).unwrap();
    assert_eq!(
        casm[1],
        CasmInstruction::Add { left: Operand::DerefAp(0), op1: Operand::DerefFp(-3), op2: Operand::Int(5) }
    );
    assert_eq!(
        casm[2],
        CasmInstruction::Store { left: Operand::DerefAp(0), op: Operand::DerefAp(-1), incr_ap: true }
    );
}

#[test]
fn subtraction_is_an_assertion() {
    let mut compiler = Compiler::new(vec![]);
    compiler.compile_function(ident("f"), vec![ident("a"), ident("b")], vec![]).unwrap();
    let op = compiler.compile_expr(Expr::new_binary(ExprType::Sub, var("a"), var("b"))).unwrap();
    assert_eq!(op, Operand::DerefAp(-1));
    let casm = compiler.compile().unwrap();
    assert_eq!(
        casm[1],
        CasmInstruction::Add { left: Operand::DerefFp(-4), op1: Operand::DerefAp(0), op2: Operand::DerefFp(-3) }
    );
}

#[test]
fn locals_take_consecutive_slots() {
    let program = vec![func(
        "f",
        &["p"],
        vec![
            CodeElement::AllocLocals,
            CodeElement::LocalVar(ident("x"), Some(lit(1))),
            CodeElement::LocalVar(ident("y"), Some(var("p"))),
            CodeElement::LocalVar(ident("z"), Some(var("x"))),
        ],
    )];
    let casm = lower(program).unwrap();
    assert_eq!(
        casm,
        vec![
            CasmInstruction::Label("f".to_string()),
            CasmInstruction::IncrAp(3),
            CasmInstruction::Store { left: Operand::DerefFp(0), op: Operand::Int(1), incr_ap: false },
            CasmInstruction::Store { left: Operand::DerefFp(1), op: Operand::DerefFp(-3), incr_ap: false },
            CasmInstruction::Store { left: Operand::DerefFp(2), op: Operand::DerefFp(0), incr_ap: false },
        ]
    );
}

#[test]
fn each_function_starts_a_fresh_frame() {
    let program = vec![
        func("f", &[], vec![CodeElement::LocalVar(ident("x"), Some(lit(1))), CodeElement::AllocLocals]),
        func("g", &[], vec![CodeElement::AllocLocals, CodeElement::LocalVar(ident("y"), Some(lit(2)))]),
    ];
    let casm = lower(program).unwrap();
    assert_eq!(casm[4], CasmInstruction::IncrAp(1));
    assert_eq!(
        casm[5],
        CasmInstruction::Store { left: Operand::DerefFp(0), op: Operand::Int(2), incr_ap: false }
    );
}

#[test]
fn unknown_identifier() {
    let program = vec![func("f", &[], vec![CodeElement::Return(var("nope"))])];
    assert_eq!(lower(program), Err(CompileError::UnknownIdentifier("nope".to_string())));
}

#[test]
fn names_do_not_leak_between_functions() {
    let program = vec![
        func("f", &["x"], vec![CodeElement::Return(var("x"))]),
        func("g", &[], vec![CodeElement::Return(var("x"))]),
    ];
    assert_eq!(lower(program), Err(CompileError::UnknownIdentifier("x".to_string())));
}

#[test]
fn unsupported_expressions() {
    let div = vec![func("f", &["x"], vec![CodeElement::Return(Expr::new_binary(ExprType::Div, var("x"), lit(2)))])];
    assert_eq!(lower(div), Err(CompileError::UnsupportedConstruct));
    let named = vec![func(
        "f",
        &["x"],
        vec![CodeElement::Return(Expr::new_function_call(
            "f".to_string(),
            vec![ExprAssignment::Assign(ident("x"), lit(1))],
        ))],
    )];
    assert_eq!(lower(named), Err(CompileError::UnsupportedConstruct));
    let structs = vec![CodeElement::Struct(ident("S"))];
    assert_eq!(lower(structs), Err(CompileError::UnsupportedConstruct));
    let jump = vec![func("f", &[], vec![CodeElement::Instruction(InstructionType::Jmp, false)])];
    assert_eq!(lower(jump), Err(CompileError::UnsupportedConstruct));
}

#[test]
fn hex_literal() {
    let mut compiler = Compiler::new(vec![]);
    let e = Expr::new_terminal(ExprType::IntegerLiteral, Token::HexInt(0x10));
    assert_eq!(compiler.compile_expr(e), Ok(Operand::Int(16)));
}

#[test]
fn unknown_label() {
    let mut assembler = Assembler::new();
    assembler.casm = vec![CasmInstruction::Call("missing".to_string())];
    assert_eq!(assembler.resolve_calls(), Err(CompileError::UnknownLabel("missing".to_string())));
}

#[test]
fn resolution_refuses_unencodable_instruction() {
    let mut assembler = Assembler::new();
    assembler.casm = vec![CasmInstruction::JmpRel(3)];
    assert_eq!(assembler.resolve_calls(), Err(CompileError::UnsupportedConstruct));
}

#[test]
fn encoder_rejects_literal_destination() {
    let bad = CasmInstruction::Store { left: Operand::Int(1), op: Operand::Int(2), incr_ap: false };
    assert_eq!(build_instruction(bad), Err(CompileError::InvalidOperandShape));
    let bad_op0 = CasmInstruction::Add { left: Operand::DerefAp(0), op1: Operand::Int(1), op2: Operand::DerefFp(0) };
    assert_eq!(build_instruction(bad_op0), Err(CompileError::InvalidOperandShape));
    let far = CasmInstruction::Store { left: Operand::DerefFp(0x8000), op: Operand::Int(2), incr_ap: false };
    assert_eq!(build_instruction(far), Err(CompileError::InvalidOperandShape));
    assert_eq!(build_instruction(CasmInstruction::Label("l".to_string())), Err(CompileError::UnsupportedConstruct));
}

#[test]
fn encoder_field_recipes() {
    let incr = build_instruction(CasmInstruction::IncrAp(5)).unwrap();
    assert_eq!(incr.imm, Some(5));
    assert_eq!((incr.offdst, incr.offop0, incr.offop1), (-1, -1, 1));
    assert_eq!((incr.dst, incr.op0, incr.op1, incr.res, incr.pc_update, incr.ap_update, incr.opcode), (1, 1, 1, 0, 0, 1, 0));
    let abs = build_instruction(CasmInstruction::CallAbs(9)).unwrap();
    assert_eq!(abs.imm, Some(9));
    assert_eq!((abs.pc_update, abs.opcode), (1, 1));
    let mul = build_instruction(CasmInstruction::Mul {
        left: Operand::DerefFp(2),
        op1: Operand::DerefAp(-1),
        op2: Operand::DerefAp(-2),
    })
    .unwrap();
    assert_eq!((mul.offdst, mul.offop0, mul.offop1), (2, -1, -2));
    assert_eq!((mul.dst, mul.op0, mul.op1, mul.res, mul.ap_update, mul.opcode), (1, 0, 4, 2, 2, 4));
    assert_eq!(mul.imm, None);
    let add = build_instruction(CasmInstruction::Add {
        left: Operand::DerefAp(0),
        op1: Operand::DerefFp(-3),
        op2: Operand::Int(5),
    })
    .unwrap();
    assert_eq!((add.offop1, add.op1, add.res, add.imm), (1, 1, 1, Some(5)));
}

#[test]
fn immediate_only_with_literal_or_call() {
    let with_int = build_instruction(CasmInstruction::Store { left: Operand::DerefAp(0), op: Operand::Int(1), incr_ap: true }).unwrap();
    assert!(with_int.imm.is_some());
    let no_int = build_instruction(CasmInstruction::Store { left: Operand::DerefAp(0), op: Operand::DerefFp(1), incr_ap: true }).unwrap();
    assert!(no_int.imm.is_none());
    assert!(build_instruction(CasmInstruction::Ret).unwrap().imm.is_none());
    assert!(build_instruction(CasmInstruction::CallRel(0)).unwrap().imm.is_some());
}

#[test]
fn packed_fields_decode() {
    let ins = Instruction {
        offdst: -5,
        offop0: 7,
        offop1: -0x8000,
        imm: None,
        dst: 1,
        op0: 0,
        op1: 4,
        res: 2,
        pc_update: 4,
        ap_update: 2,
        opcode: 4,
    };
    let (w, imm) = ins.to_bytes();
    assert_eq!(imm, None);
    assert_eq!((w & 0xffff) as i32 - 0x8000, -5);
    assert_eq!(((w >> 16) & 0xffff) as i32 - 0x8000, 7);
    assert_eq!(((w >> 32) & 0xffff) as i32 - 0x8000, -0x8000);
    assert_eq!((w >> 48) & 1, 1);
    assert_eq!((w >> 49) & 1, 0);
    assert_eq!((w >> 50) & 7, 4);
    assert_eq!((w >> 53) & 3, 2);
    assert_eq!((w >> 55) & 7, 4);
    assert_eq!((w >> 58) & 3, 2);
    assert_eq!((w >> 60) & 7, 4);
    assert!(w < 1 << 63);
}

#[test]
fn artifact_json() {
    let casm = lower(vec![func("f", &[], vec![CodeElement::Instruction(InstructionType::Ret, false)])]).unwrap();
    let assembler = assemble(casm);
    assert_eq!(assembler.hex_data(), vec!["0x208b7fff7fff7ffe".to_string()]);
    assert_eq!(assembler.identifiers(), vec![("__main__.f".to_string(), 0u64)]);
    assert_eq!(
        assembler.to_json(),
        [
            r#"{"attributes":[],"builtins":[],"compiler_version":"0.1","data":["0x208b7fff7fff7ffe"],"#,
            r#""hints":{},"identifiers":{"__main__.f":{"decorators":[],"pc":0,"type":"function"}},"#,
            r#""main_scope":"__main__","prime":"0x7fffffff","reference_manager":{"references":[]}}"#,
        ]
        .concat()
    );
}

#[test]
fn artifact_lists_immediates_in_order() {
    let casm = lower(two_functions()).unwrap();
    let assembler = assemble(casm);
    let hex = assembler.hex_data();
    assert_eq!(hex.len(), 8);
    assert_eq!(hex[3], "0x3");
    assert_eq!(hex[4], "0x1104800180018000");
    assert_eq!(hex[5], "0x7ffffffb");
    let json = assembler.to_json();
    assert!(json.contains(r#""__main__.g":{"decorators":[],"pc":2,"type":"function"}"#));
}

#[test]
fn assembly_text() {
    assert_eq!(CasmInstruction::Ret.text(), "ret;");
    assert_eq!(CasmInstruction::Label("main".to_string()).text(), "main:");
    assert_eq!(CasmInstruction::Call("f".to_string()).text(), "call f;");
    assert_eq!(CasmInstruction::CallRel(-4).text(), "call rel -4;");
    assert_eq!(CasmInstruction::IncrAp(3).text(), "ap += 3;");
    assert_eq!(
        CasmInstruction::Store { left: Operand::DerefAp(0), op: Operand::Int(7), incr_ap: true }.text(),
        "[ap + 0] = 7, ap++;"
    );
    assert_eq!(
        CasmInstruction::Add { left: Operand::DerefFp(0), op1: Operand::DerefAp(0), op2: Operand::DerefFp(-3) }.text(),
        "[fp + 0] = [ap + 0] + [fp + -3], ap++;"
    );
    assert_eq!(
        CasmInstruction::Mul { left: Operand::DerefAp(0), op1: Operand::DerefFp(1), op2: Operand::Int(u64::MAX) }.text(),
        "[ap + 0] = [fp + 1] * 18446744073709551615, ap++;"
    );
    assert_eq!(CasmInstruction::JmpIfNeq(2, Operand::DerefAp(-1)).text(), "jmp rel 2 if [ap + -1] != 0");
    assert_eq!(Operand::DerefFp(-2147483648).text(), "[fp + -2147483648]");
}

#[test]
fn expression_tree_text() {
    let sum = Expr::new_binary(ExprType::Add, lit(2), var("x"));
    assert_eq!(sum.text_with_indent(""), "Add\n  IntegerLiteral '2'\n  Identifier 'x'\n");
    let call = Expr::new_function_call(
        "f".to_string(),
        vec![ExprAssignment::Expr(lit(3)), ExprAssignment::Assign(ident("y"), lit(4))],
    );
    assert_eq!(
        call.text_with_indent(""),
        "FunctionCall 'f'\n  IntegerLiteral '3'\n  Assign 'y' = \n    IntegerLiteral '4'\n"
    );
    let hex = Expr::new_terminal(ExprType::IntegerLiteral, Token::HexInt(255));
    assert_eq!(hex.text_with_indent("> "), "> IntegerLiteral '0xff'");
    let cast = Expr::new_cast(Type::Felt, var("x"));
    assert_eq!(cast.text_with_indent(""), "Cast\n  Identifier 'x'\n  Felt\n");
}

#[test]
fn type_tree_text() {
    let t = Type::Tuple(vec![Type::Felt, Type::Pointer(Box::new(Type::Struct(ident("S"))))]);
    assert_eq!(t.text_with_indent(""), "Tuple\n  Felt\n  Pointer\n    Struct 'S'\n\n");
    let named = Type::Named(ident("a"), Box::new(Type::CodeOffset));
    assert_eq!(named.text_with_indent(""), "Named 'a'\n  CodeOffset");
}

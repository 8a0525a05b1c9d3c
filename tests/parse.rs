use casm_compiler::assembler::Assembler;
use casm_compiler::casm::{CasmInstruction, Operand};
use casm_compiler::lexer::Token;
use casm_compiler::lexer::Token::{
    Colon, Else, Equal, Felt, Func, If, Int, LBrace, LParen, Let, Local, Neq, Plus, RBrace, RParen, Ret, Return,
    Semicolon, Star, Call, Rel, Ap, PlusEq, Comma, PlusPlus, Jmp, Abs,
};
use casm_compiler::error::CompileError;
use casm_compiler::lower_to_casm::Compiler;
use casm_compiler::parser::{ParseError, Parser};

fn id(name: &str) -> Token {
    Token::Identifier(name.to_string())
}

fn parse_and_lower(tokens: Vec<Token>) -> Vec<CasmInstruction> {
    let mut parser = Parser::new(tokens, "test.cairo".to_string(), String::new());
    let elements = parser.parse();
    assert!(parser.errors().is_empty());
    Compiler::new(elements).compile().unwrap()
}

#[test]
fn parses_ret_function() {
    let casm = parse_and_lower(vec![Func, id("f"), LParen, RParen, LBrace, Ret, Semicolon, RBrace]);
    assert_eq!(casm, vec![CasmInstruction::Label("f".to_string()), CasmInstruction::Ret]);
}

#[test]
fn parses_two_functions_and_resolves_call() {
    let tokens = vec![
        Func, id("f"), LParen, id("x"), RParen, LBrace, Return, id("x"), Semicolon, RBrace,
        Func, id("g"), LParen, RParen, LBrace, Return, id("f"), LParen, Int(3), RParen, Semicolon, RBrace,
    ];
    let casm = parse_and_lower(tokens);
    let mut assembler = Assembler::new();
    assembler.casm = casm;
    assembler.resolve_calls().unwrap();
    assert_eq!(assembler.casm[3], CasmInstruction::CallRel(-4));
}

#[test]
fn parses_precedence_and_folds() {
    let tokens = vec![
        Func, id("f"), LParen, RParen, LBrace,
        Let, id("x"), Equal, Int(2), Plus, Int(3), Star, Int(4), Semicolon,
        RBrace,
    ];
    let casm = parse_and_lower(tokens);
    assert_eq!(
        casm,
        vec![
            CasmInstruction::Label("f".to_string()),
            CasmInstruction::Store { left: Operand::DerefFp(0), op: Operand::Int(14), incr_ap: false },
        ]
    );
}

#[test]
fn parses_if_else() {
    let tokens = vec![
        Func, id("f"), LParen, RParen, LBrace,
        Local, id("a"), Semicolon, Local, id("b"), Colon, Felt, Semicolon, Local, id("c"), Semicolon,
        If, id("a"), Neq, id("b"), LBrace, id("c"), Equal, Int(1), Semicolon, RBrace,
        Else, LBrace, id("c"), Equal, Int(2), Semicolon, RBrace,
        RBrace,
    ];
    let casm = parse_and_lower(tokens);
    assert_eq!(casm[2], CasmInstruction::JmpIfNeq(2, Operand::DerefAp(-1)));
    assert_eq!(casm.len(), 5);
}

#[test]
fn parse_errors_are_collected() {
    let tokens = vec![
        Return, Semicolon,
        Func, id("f"), LParen, RParen, LBrace, Ret, Semicolon, RBrace,
        Local, Semicolon,
    ];
    let mut parser = Parser::new(tokens, "test.cairo".to_string(), String::new());
    let elements = parser.parse();
    assert_eq!(elements.len(), 1);
    assert_eq!(
        parser.errors(),
        vec![
            ParseError { position: 1, expected: "expression" },
            ParseError { position: 11, expected: "identifier" },
        ]
    );
}

#[test]
fn parses_direct_instructions() {
    let tokens = vec![
        Func, id("f"), LParen, RParen, LBrace,
        Call, Rel, Int(3), Semicolon,
        Ap, PlusEq, Int(2), Comma, Ap, PlusPlus, Semicolon,
        Jmp, Abs, Int(0), If, id("x"), Semicolon,
        Call, id("g"), Semicolon,
        RBrace,
    ];
    let mut parser = Parser::new(tokens, "test.cairo".to_string(), String::new());
    let elements = parser.parse();
    assert!(parser.errors().is_empty());
    assert_eq!(elements.len(), 1);
    assert_eq!(Compiler::new(elements).compile(), Err(CompileError::UnsupportedConstruct));
}

#[test]
fn ret_with_ap_increment() {
    let tokens = vec![Func, id("f"), LParen, RParen, LBrace, Ret, Comma, Ap, PlusPlus, Semicolon, RBrace];
    let casm = parse_and_lower(tokens);
    assert_eq!(casm, vec![CasmInstruction::Label("f".to_string()), CasmInstruction::Ret]);
}

#[test]
fn parser_keeps_its_source() {
    let parser = Parser::new(vec![], "a.cairo".to_string(), "func".to_string());
    assert_eq!(parser.file_name(), "a.cairo");
    assert_eq!(parser.source(), "func");
}

#[test]
fn empty_stream_parses_to_nothing() {
    let mut parser = Parser::new(vec![], "a.cairo".to_string(), String::new());
    assert!(parser.parse().is_empty());
    assert!(parser.errors().is_empty());
}

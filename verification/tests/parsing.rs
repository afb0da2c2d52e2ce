use comfyc::ast::AstNode;
use comfyc::errors::{CompileError, ExpectKind};
use comfyc::parser::parse;
use comfyc::tokenizer::{tokenize, Token};

fn parse_src(src: &str) -> Result<AstNode, CompileError> {
    parse(tokenize(src).unwrap())
}

#[test]
fn parses_exit_program_shape() {
    let ast = parse_src("fn main(){ $exit(0); }").unwrap();
    let stmts = match ast {
        AstNode::Program(stmts) => stmts,
        other => panic!("expected a program, got {:?}", other),
    };
    assert_eq!(stmts.len(), 1);
    match &stmts[0] {
        AstNode::FunctionDefinition(name, params, body) => {
            assert_eq!(name, "main");
            assert_eq!(params.len(), 0);
            assert_eq!(body.len(), 1);
            match &body[0] {
                AstNode::Syscall(nm, inner) => {
                    assert_eq!(nm, "exit");
                    assert!(matches!(&**inner, AstNode::Exit(Token::Int8Container(0))));
                },
                other => panic!("expected a syscall, got {:?}", other),
            }
        },
        other => panic!("expected a function, got {:?}", other),
    }
}

#[test]
fn widening_int8_literal_into_int16() {
    let ast = parse_src("int16 x = 5;").unwrap();
    match ast {
        AstNode::Program(stmts) => match &stmts[0] {
            AstNode::VariableDeclaration(name, value, ty) => {
                assert_eq!(name, "x");
                assert!(matches!(&**value, AstNode::IInt16(5)));
                assert!(matches!(&**ty, AstNode::Type(Token::Int16, false)));
            },
            other => panic!("expected a declaration, got {:?}", other),
        },
        other => panic!("expected a program, got {:?}", other),
    }
}

#[test]
fn widening_into_int32() {
    let ast = parse_src("int32 x = 300;").unwrap();
    match ast {
        AstNode::Program(stmts) => {
            assert!(matches!(
                &stmts[0],
                AstNode::VariableDeclaration(_, value, _)
                    if matches!(&**value, AstNode::IInt32(300))
            ));
        },
        other => panic!("expected a program, got {:?}", other),
    }
}

#[test]
fn narrowing_is_rejected() {
    match parse_src("int8 x = 300;") {
        Err(CompileError::Expected(ExpectKind::Literal, Token::Int16Container(300))) => {},
        other => panic!("expected a literal mismatch, got {:?}", other),
    }
}

#[test]
fn buffer_declaration_without_initializer() {
    let ast = parse_src("mut int32 buf;").unwrap();
    match ast {
        AstNode::Program(stmts) => {
            assert!(matches!(
                &stmts[0],
                AstNode::VariableBufferDeclaration(name, ty)
                    if name == "buf" && matches!(&**ty, AstNode::Type(Token::Int32, true))
            ));
        },
        other => panic!("expected a program, got {:?}", other),
    }
}

#[test]
fn assignment_statement() {
    let ast = parse_src("x = 7;").unwrap();
    match ast {
        AstNode::Program(stmts) => {
            assert!(matches!(
                &stmts[0],
                AstNode::VariableAssignment(name, value)
                    if name == "x" && matches!(&**value, AstNode::IInt8(7))
            ));
        },
        other => panic!("expected a program, got {:?}", other),
    }
}

#[test]
fn function_call_statement_is_unsupported() {
    match parse_src("foo(1);") {
        Err(CompileError::FunctionCallUnsupported(name)) => assert_eq!(name, "foo"),
        other => panic!("expected the function-call gap, got {:?}", other),
    }
}

#[test]
fn unknown_syscall_name_is_fatal() {
    match parse_src("$fork();") {
        Err(CompileError::UnknownSyscall(name)) => assert_eq!(name, "fork"),
        other => panic!("expected an unknown syscall, got {:?}", other),
    }
}

#[test]
fn consume_mismatch_names_both_tokens() {
    match parse_src("fn main(){ $exit(0) }") {
        Err(CompileError::UnexpectedToken(expected, found)) => {
            assert_eq!(expected, Token::Semicolon);
            assert_eq!(found, Token::CurlyClose);
        },
        other => panic!("expected a token mismatch, got {:?}", other),
    }
}

#[test]
fn parameters_with_mutability() {
    let ast = parse_src("fn f(mut int8 a, str b){ }").unwrap();
    match ast {
        AstNode::Program(stmts) => match &stmts[0] {
            AstNode::FunctionDefinition(_, params, _) => {
                assert_eq!(params.len(), 2);
                assert!(matches!(
                    &params[0],
                    AstNode::Identifier(n, ty)
                        if n == "a" && matches!(&**ty, AstNode::Type(Token::Int8, true))
                ));
                assert!(matches!(
                    &params[1],
                    AstNode::Identifier(n, ty)
                        if n == "b" && matches!(&**ty, AstNode::Type(Token::Str, false))
                ));
            },
            other => panic!("expected a function, got {:?}", other),
        },
        other => panic!("expected a program, got {:?}", other),
    }
}

#[test]
fn inline_assembly_collects_lines() {
    let ast = parse_src("fn main(){ asm { \"mov r0, r1\", \"nop\" }; }").unwrap();
    match ast {
        AstNode::Program(stmts) => match &stmts[0] {
            AstNode::FunctionDefinition(_, _, body) => {
                assert!(matches!(
                    &body[0],
                    AstNode::InlineAsm(lines)
                        if lines == &vec!["mov r0, r1".to_string(), "nop".to_string()]
                ));
            },
            other => panic!("expected a function, got {:?}", other),
        },
        other => panic!("expected a program, got {:?}", other),
    }
}

#[test]
fn write_arguments_keep_their_tokens() {
    let ast = parse_src("$write(1, \"hi\");").unwrap();
    match ast {
        AstNode::Program(stmts) => match &stmts[0] {
            AstNode::Syscall(nm, inner) => {
                assert_eq!(nm, "write");
                assert!(matches!(
                    &**inner,
                    AstNode::Write(Token::Int8Container(1), Token::StrContainer(s))
                        if s == "hi"
                ));
            },
            other => panic!("expected a syscall, got {:?}", other),
        },
        other => panic!("expected a program, got {:?}", other),
    }
}

#[test]
fn open_takes_path_flags_mode() {
    let ast = parse_src("$open(\"f\", 0, 438);").unwrap();
    match ast {
        AstNode::Program(stmts) => match &stmts[0] {
            AstNode::Syscall(nm, inner) => {
                assert_eq!(nm, "open");
                assert!(matches!(
                    &**inner,
                    AstNode::Open(
                        Token::StrContainer(_),
                        Token::Int8Container(0),
                        Token::Int16Container(438),
                    )
                ));
            },
            other => panic!("expected a syscall, got {:?}", other),
        },
        other => panic!("expected a program, got {:?}", other),
    }
}

#[test]
fn read_buffer_must_be_identifier() {
    match parse_src("$read(0, \"buf\");") {
        Err(CompileError::Expected(ExpectKind::Buffer, Token::StrContainer(_))) => {},
        other => panic!("expected a buffer mismatch, got {:?}", other),
    }
}

#[test]
fn syscall_initializer_does_not_take_the_semicolon() {
    let ast = parse_src("int32 fd = $open(\"f\", 0, 0);").unwrap();
    match ast {
        AstNode::Program(stmts) => {
            assert!(matches!(
                &stmts[0],
                AstNode::VariableDeclaration(_, value, _)
                    if matches!(&**value, AstNode::Syscall(_, _))
            ));
        },
        other => panic!("expected a program, got {:?}", other),
    }
}

#[test]
fn statement_must_begin_properly() {
    match parse_src(") fn") {
        Err(CompileError::Expected(ExpectKind::Statement, Token::ParentClose)) => {},
        other => panic!("expected a statement error, got {:?}", other),
    }
}

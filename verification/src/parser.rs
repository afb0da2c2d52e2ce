//! The recursive-descent parser: token sequence to AST.
//!
//! The grammar is written once as a family of recursive spec functions
//! over the token sequence, each returning the parsed node and the
//! position after it, or the fatal error; the executable parser is
//! proved to return exactly their result.

use vstd::prelude::*;
use vstd::string::*;
use crate::ast::{lemma_view_asts_push, view_asts, view_strings, AstNode, SpecAst};
use crate::errors::{CompileError, ExpectKind, SpecCompileError};
use crate::strutil::str_eq;
use crate::tokenizer::{view_tokens, SpecToken, Token};

verus! {

broadcast use crate::tokenizer::lemma_token_view_variants;

/// The token at position `i`, or `EOF` past the end.
pub open spec fn spec_cur(toks: Seq<SpecToken>, i: int) -> SpecToken {
    if 0 <= i < toks.len() {
        toks[i]
    } else {
        SpecToken::EOF
    }
}

/// Consuming one exact token: the next position, or the mismatch error.
pub open spec fn spec_consume(toks: Seq<SpecToken>, i: int, t: SpecToken) -> Result<
    int,
    SpecCompileError,
> {
    if 0 <= i < toks.len() && toks[i] == t {
        Ok(i + 1)
    } else {
        Err(SpecCompileError::UnexpectedToken(t, spec_cur(toks, i)))
    }
}

/// The base type keywords.
pub open spec fn is_type_keyword(t: SpecToken) -> bool {
    t is Bool || t is Char || t is Str || t is Int8 || t is Int16 || t is Int32
}

/// An integer literal container or an identifier: the argument forms a
/// syscall accepts for numeric positions.
pub open spec fn spec_parse_int_or_identifier(toks: Seq<SpecToken>, i: int) -> Result<
    (SpecToken, int),
    SpecCompileError,
> {
    let c = spec_cur(toks, i);
    match c {
        SpecToken::Int8Container(_) => Ok((c, i + 1)),
        SpecToken::Int16Container(_) => Ok((c, i + 1)),
        SpecToken::Int32Container(_) => Ok((c, i + 1)),
        SpecToken::Identifier(_) => Ok((c, i + 1)),
        _ => Err(SpecCompileError::Expected(ExpectKind::IntOrIdentifier, c)),
    }
}

/// `$write(fd, data)`.
pub open spec fn spec_parse_sys_write(toks: Seq<SpecToken>, i: int) -> Result<
    (SpecAst, int),
    SpecCompileError,
> {
    match spec_consume(toks, i, SpecToken::Syscall("write"@)) {
        Err(e) => Err(e),
        Ok(i1) => match spec_consume(toks, i1, SpecToken::ParentOpen) {
            Err(e) => Err(e),
            Ok(i2) => match spec_parse_int_or_identifier(toks, i2) {
                Err(e) => Err(e),
                Ok((fd, i3)) => match spec_consume(toks, i3, SpecToken::Comma) {
                    Err(e) => Err(e),
                    Ok(i4) => {
                        let d = spec_cur(toks, i4);
                        match d {
                            SpecToken::StrContainer(_) | SpecToken::Identifier(_) => match spec_consume(
                                toks,
                                i4 + 1,
                                SpecToken::ParentClose,
                            ) {
                                Err(e) => Err(e),
                                Ok(i5) => Ok((SpecAst::Write(fd, d), i5)),
                            },
                            _ => Err(
                                SpecCompileError::Expected(ExpectKind::StringOrIdentifier, d),
                            ),
                        }
                    },
                },
            },
        },
    }
}

/// `$read(fd, buffer)`.
pub open spec fn spec_parse_sys_read(toks: Seq<SpecToken>, i: int) -> Result<
    (SpecAst, int),
    SpecCompileError,
> {
    match spec_consume(toks, i, SpecToken::Syscall("read"@)) {
        Err(e) => Err(e),
        Ok(i1) => match spec_consume(toks, i1, SpecToken::ParentOpen) {
            Err(e) => Err(e),
            Ok(i2) => match spec_parse_int_or_identifier(toks, i2) {
                Err(e) => Err(e),
                Ok((fd, i3)) => match spec_consume(toks, i3, SpecToken::Comma) {
                    Err(e) => Err(e),
                    Ok(i4) => {
                        let b = spec_cur(toks, i4);
                        match b {
                            SpecToken::Identifier(_) => match spec_consume(
                                toks,
                                i4 + 1,
                                SpecToken::ParentClose,
                            ) {
                                Err(e) => Err(e),
                                Ok(i5) => Ok((SpecAst::Read(fd, b), i5)),
                            },
                            _ => Err(SpecCompileError::Expected(ExpectKind::Buffer, b)),
                        }
                    },
                },
            },
        },
    }
}

/// `$exit(code)`.
pub open spec fn spec_parse_sys_exit(toks: Seq<SpecToken>, i: int) -> Result<
    (SpecAst, int),
    SpecCompileError,
> {
    match spec_consume(toks, i, SpecToken::Syscall("exit"@)) {
        Err(e) => Err(e),
        Ok(i1) => match spec_consume(toks, i1, SpecToken::ParentOpen) {
            Err(e) => Err(e),
            Ok(i2) => match spec_parse_int_or_identifier(toks, i2) {
                Err(e) => Err(e),
                Ok((code, i3)) => match spec_consume(toks, i3, SpecToken::ParentClose) {
                    Err(e) => Err(e),
                    Ok(i4) => Ok((SpecAst::Exit(code), i4)),
                },
            },
        },
    }
}

/// `$open(path, flags, mode)`.
pub open spec fn spec_parse_sys_open(toks: Seq<SpecToken>, i: int) -> Result<
    (SpecAst, int),
    SpecCompileError,
> {
    match spec_consume(toks, i, SpecToken::Syscall("open"@)) {
        Err(e) => Err(e),
        Ok(i1) => match spec_consume(toks, i1, SpecToken::ParentOpen) {
            Err(e) => Err(e),
            Ok(i2) => {
                let p = spec_cur(toks, i2);
                match p {
                    SpecToken::StrContainer(_) | SpecToken::Identifier(_) => match spec_consume(
                        toks,
                        i2 + 1,
                        SpecToken::Comma,
                    ) {
                        Err(e) => Err(e),
                        Ok(i3) => match spec_parse_int_or_identifier(toks, i3) {
                            Err(e) => Err(e),
                            Ok((flags, i4)) => match spec_consume(toks, i4, SpecToken::Comma) {
                                Err(e) => Err(e),
                                Ok(i5) => match spec_parse_int_or_identifier(toks, i5) {
                                    Err(e) => Err(e),
                                    Ok((mode, i6)) => match spec_consume(
                                        toks,
                                        i6,
                                        SpecToken::ParentClose,
                                    ) {
                                        Err(e) => Err(e),
                                        Ok(i7) => Ok((SpecAst::Open(p, flags, mode), i7)),
                                    },
                                },
                            },
                        },
                    },
                    _ => Err(SpecCompileError::Expected(ExpectKind::StringOrIdentifier, p)),
                }
            },
        },
    }
}

/// `$sysinfo(buffer)`.
pub open spec fn spec_parse_sys_sysinfo(toks: Seq<SpecToken>, i: int) -> Result<
    (SpecAst, int),
    SpecCompileError,
> {
    match spec_consume(toks, i, SpecToken::Syscall("sysinfo"@)) {
        Err(e) => Err(e),
        Ok(i1) => match spec_consume(toks, i1, SpecToken::ParentOpen) {
            Err(e) => Err(e),
            Ok(i2) => {
                let b = spec_cur(toks, i2);
                match b {
                    SpecToken::Identifier(name) => match spec_consume(
                        toks,
                        i2 + 1,
                        SpecToken::ParentClose,
                    ) {
                        Err(e) => Err(e),
                        Ok(i3) => Ok((SpecAst::Sysinfo(name), i3)),
                    },
                    _ => Err(SpecCompileError::Expected(ExpectKind::Buffer, b)),
                }
            },
        },
    }
}

/// A syscall expression `$name(...)`, dispatched on the name. The
/// wrapped node keeps the name beside the specialized argument node.
pub open spec fn spec_parse_syscall(toks: Seq<SpecToken>, i: int) -> Result<
    (SpecAst, int),
    SpecCompileError,
> {
    match spec_cur(toks, i) {
        SpecToken::Syscall(nm) => {
            let sub = if nm == "write"@ {
                spec_parse_sys_write(toks, i)
            } else if nm == "read"@ {
                spec_parse_sys_read(toks, i)
            } else if nm == "exit"@ {
                spec_parse_sys_exit(toks, i)
            } else if nm == "open"@ {
                spec_parse_sys_open(toks, i)
            } else if nm == "sysinfo"@ {
                spec_parse_sys_sysinfo(toks, i)
            } else {
                Err(SpecCompileError::UnknownSyscall(nm))
            };
            match sub {
                Err(e) => Err(e),
                Ok((inner, j)) => Ok((SpecAst::Syscall(nm, Box::new(inner)), j)),
            }
        },
        c => Err(SpecCompileError::Expected(ExpectKind::Statement, c)),
    }
}

/// A literal of the declared base type. Narrower integer containers
/// widen to `int16` and `int32`; nothing narrows.
pub open spec fn spec_parse_datatype(toks: Seq<SpecToken>, i: int, ty: SpecToken) -> Result<
    (SpecAst, int),
    SpecCompileError,
> {
    let c = spec_cur(toks, i);
    match ty {
        SpecToken::Bool => match c {
            SpecToken::BoolContainer(v) => Ok((SpecAst::IBool(v), i + 1)),
            _ => Err(SpecCompileError::Expected(ExpectKind::Literal, c)),
        },
        SpecToken::Char => match c {
            SpecToken::CharContainer(v) => Ok((SpecAst::IChar(v), i + 1)),
            _ => Err(SpecCompileError::Expected(ExpectKind::Literal, c)),
        },
        SpecToken::Int8 => match c {
            SpecToken::Int8Container(v) => Ok((SpecAst::IInt8(v), i + 1)),
            _ => Err(SpecCompileError::Expected(ExpectKind::Literal, c)),
        },
        SpecToken::Int16 => match c {
            SpecToken::Int8Container(v) => Ok((SpecAst::IInt16(v as i16), i + 1)),
            SpecToken::Int16Container(v) => Ok((SpecAst::IInt16(v), i + 1)),
            _ => Err(SpecCompileError::Expected(ExpectKind::Literal, c)),
        },
        SpecToken::Int32 => match c {
            SpecToken::Int8Container(v) => Ok((SpecAst::IInt32(v as i32), i + 1)),
            SpecToken::Int16Container(v) => Ok((SpecAst::IInt32(v as i32), i + 1)),
            SpecToken::Int32Container(v) => Ok((SpecAst::IInt32(v), i + 1)),
            _ => Err(SpecCompileError::Expected(ExpectKind::Literal, c)),
        },
        SpecToken::Str => match c {
            SpecToken::StrContainer(s) => Ok((SpecAst::IStr(s), i + 1)),
            _ => Err(SpecCompileError::Expected(ExpectKind::Literal, c)),
        },
        _ => Err(SpecCompileError::Expected(ExpectKind::DeclaredType, ty)),
    }
}

/// One function parameter: `mut`? TYPE IDENT.
pub open spec fn spec_parse_param(toks: Seq<SpecToken>, k: int) -> Result<
    (SpecAst, int),
    SpecCompileError,
> {
    let m = spec_cur(toks, k) == SpecToken::Mut;
    let k1 = if m {
        k + 1
    } else {
        k
    };
    let ptype = spec_cur(toks, k1);
    if !is_type_keyword(ptype) {
        Err(SpecCompileError::Expected(ExpectKind::ParamType, ptype))
    } else {
        match spec_cur(toks, k1 + 1) {
            SpecToken::Identifier(name) => Ok(
                (
                    SpecAst::Identifier(name, Box::new(SpecAst::Type(ptype, m))),
                    k1 + 2,
                ),
            ),
            c => Err(SpecCompileError::Expected(ExpectKind::Identifier, c)),
        }
    }
}

/// The parameter list of a function definition, up to the closing
/// parenthesis. A comma after a parameter is consumed when present.
pub open spec fn spec_parse_params(toks: Seq<SpecToken>, k: int) -> Result<
    (Seq<SpecAst>, int),
    SpecCompileError,
>
    decreases toks.len() - k, 1int,
{
    if spec_cur(toks, k) == SpecToken::ParentClose {
        Ok((Seq::empty(), k))
    } else {
        match spec_parse_param(toks, k) {
            Err(e) => Err(e),
            Ok((p, k3)) => {
                let k4 = if spec_cur(toks, k3) == SpecToken::Comma {
                    k3 + 1
                } else {
                    k3
                };
                if k < k4 <= toks.len() {
                    match spec_parse_params(toks, k4) {
                        Err(e) => Err(e),
                        Ok((rest, e)) => Ok((seq![p] + rest, e)),
                    }
                } else {
                    Err(SpecCompileError::Expected(ExpectKind::ParamType, spec_cur(toks, k4)))
                }
            },
        }
    }
}

/// The string lines of an inline assembly block, up to the closing brace
/// or the end of the tokens.
pub open spec fn spec_parse_asm_lines(toks: Seq<SpecToken>, k: int) -> Result<
    (Seq<Seq<char>>, int),
    SpecCompileError,
>
    decreases toks.len() - k, 1int,
{
    let c = spec_cur(toks, k);
    if c == SpecToken::CurlyClose || c == SpecToken::EOF {
        Ok((Seq::empty(), k))
    } else {
        match c {
            SpecToken::StrContainer(s) => {
                let k2 = if spec_cur(toks, k + 1) == SpecToken::Comma {
                    k + 2
                } else {
                    k + 1
                };
                if k < k2 <= toks.len() {
                    match spec_parse_asm_lines(toks, k2) {
                        Err(e) => Err(e),
                        Ok((rest, e)) => Ok((seq![s] + rest, e)),
                    }
                } else {
                    Err(SpecCompileError::Expected(ExpectKind::AsmLine, spec_cur(toks, k2)))
                }
            },
            _ => Err(SpecCompileError::Expected(ExpectKind::AsmLine, c)),
        }
    }
}

/// An inline assembly statement: `asm { "LINE", ... };`.
pub open spec fn spec_parse_inline_asm(toks: Seq<SpecToken>, i: int) -> Result<
    (SpecAst, int),
    SpecCompileError,
>
    decreases toks.len() - i, 2int,
{
    match spec_consume(toks, i, SpecToken::InlineAsm) {
        Err(e) => Err(e),
        Ok(i1) => match spec_consume(toks, i1, SpecToken::CurlyOpen) {
            Err(e) => Err(e),
            Ok(i2) => match spec_parse_asm_lines(toks, i2) {
                Err(e) => Err(e),
                Ok((lines, jl)) => match spec_consume(toks, jl, SpecToken::CurlyClose) {
                    Err(e) => Err(e),
                    Ok(i3) => match spec_consume(toks, i3, SpecToken::Semicolon) {
                        Err(e) => Err(e),
                        Ok(i4) => Ok((SpecAst::InlineAsm(lines), i4)),
                    },
                },
            },
        },
    }
}

/// A variable declaration statement, with or without an initializer.
pub open spec fn spec_parse_var_decl(toks: Seq<SpecToken>, i: int) -> Result<
    (SpecAst, int),
    SpecCompileError,
>
    decreases toks.len() - i, 2int,
{
    let m = spec_cur(toks, i) == SpecToken::Mut;
    let k = if m {
        i + 1
    } else {
        i
    };
    if k >= toks.len() {
        Err(
            SpecCompileError::UnexpectedToken(
                spec_cur(toks, k),
                spec_cur(toks, k),
            ),
        )
    } else {
        let ty = spec_cur(toks, k);
        let k2 = k + 1;
        match spec_cur(toks, k2) {
            SpecToken::Identifier(name) => {
                let k3 = k2 + 1;
                if spec_cur(toks, k3) == SpecToken::Semicolon {
                    Ok(
                        (
                            SpecAst::VariableBufferDeclaration(
                                name,
                                Box::new(SpecAst::Type(ty, m)),
                            ),
                            k3 + 1,
                        ),
                    )
                } else {
                    match spec_consume(toks, k3, SpecToken::Equals) {
                        Err(e) => Err(e),
                        Ok(k4) => {
                            let c = spec_cur(toks, k4);
                            let val = match c {
                                SpecToken::BoolContainer(_)
                                | SpecToken::CharContainer(_)
                                | SpecToken::Int8Container(_)
                                | SpecToken::Int16Container(_)
                                | SpecToken::Int32Container(_)
                                | SpecToken::StrContainer(_) => spec_parse_datatype(toks, k4, ty),
                                SpecToken::Syscall(_) => if i < k4 <= toks.len() {
                                    spec_parse_syscall(toks, k4)
                                } else {
                                    Err(SpecCompileError::Expected(ExpectKind::DeclValue, c))
                                },
                                _ => Err(SpecCompileError::Expected(ExpectKind::DeclValue, c)),
                            };
                            match val {
                                Err(e) => Err(e),
                                Ok((value, k5)) => match spec_consume(
                                    toks,
                                    k5,
                                    SpecToken::Semicolon,
                                ) {
                                    Err(e) => Err(e),
                                    Ok(k6) => Ok(
                                        (
                                            SpecAst::VariableDeclaration(
                                                name,
                                                Box::new(value),
                                                Box::new(SpecAst::Type(ty, m)),
                                            ),
                                            k6,
                                        ),
                                    ),
                                },
                            }
                        },
                    }
                }
            },
            c => Err(SpecCompileError::Expected(ExpectKind::Identifier, c)),
        }
    }
}

/// The assignment tail after an identifier: `= LITERAL ;`. The literal
/// container decides the node's type.
pub open spec fn spec_parse_assignment(toks: Seq<SpecToken>, k: int, name: Seq<char>) -> Result<
    (SpecAst, int),
    SpecCompileError,
> {
    match spec_consume(toks, k, SpecToken::Equals) {
        Err(e) => Err(e),
        Ok(k2) => {
            let c = spec_cur(toks, k2);
            let val = match c {
                SpecToken::BoolContainer(_) => spec_parse_datatype(toks, k2, SpecToken::Bool),
                SpecToken::CharContainer(_) => spec_parse_datatype(toks, k2, SpecToken::Char),
                SpecToken::Int8Container(_) => spec_parse_datatype(toks, k2, SpecToken::Int8),
                SpecToken::Int16Container(_) => spec_parse_datatype(toks, k2, SpecToken::Int16),
                SpecToken::Int32Container(_) => spec_parse_datatype(toks, k2, SpecToken::Int32),
                SpecToken::StrContainer(_) => spec_parse_datatype(toks, k2, SpecToken::Str),
                _ => Err(SpecCompileError::Expected(ExpectKind::AssignValue, c)),
            };
            match val {
                Err(e) => Err(e),
                Ok((value, k3)) => match spec_consume(toks, k3, SpecToken::Semicolon) {
                    Err(e) => Err(e),
                    Ok(k4) => Ok((SpecAst::VariableAssignment(name, Box::new(value)), k4)),
                },
            }
        },
    }
}

/// A statement beginning with an identifier: an assignment, or the
/// unsupported function-call form.
pub open spec fn spec_parse_ident_stmt(toks: Seq<SpecToken>, i: int) -> Result<
    (SpecAst, int),
    SpecCompileError,
> {
    match spec_cur(toks, i) {
        SpecToken::Identifier(name) => {
            let k = i + 1;
            match spec_cur(toks, k) {
                SpecToken::Equals => spec_parse_assignment(toks, k, name),
                SpecToken::ParentOpen => Err(SpecCompileError::FunctionCallUnsupported(name)),
                c => Err(SpecCompileError::Expected(ExpectKind::AssignOrCall, c)),
            }
        },
        c => Err(SpecCompileError::Expected(ExpectKind::Identifier, c)),
    }
}

/// A function definition: `fn NAME ( PARAM,* ) { STATEMENT* }`.
pub open spec fn spec_parse_fn_def(toks: Seq<SpecToken>, i: int) -> Result<
    (SpecAst, int),
    SpecCompileError,
>
    decreases toks.len() - i, 2int,
{
    match spec_consume(toks, i, SpecToken::Function) {
        Err(e) => Err(e),
        Ok(i1) => match spec_cur(toks, i1) {
            SpecToken::Identifier(name) => {
                let i2 = i1 + 1;
                match spec_consume(toks, i2, SpecToken::ParentOpen) {
                    Err(e) => Err(e),
                    Ok(i3) => match spec_parse_params(toks, i3) {
                        Err(e) => Err(e),
                        Ok((params, jp)) => match spec_consume(toks, jp, SpecToken::ParentClose) {
                            Err(e) => Err(e),
                            Ok(i4) => match spec_consume(toks, i4, SpecToken::CurlyOpen) {
                                Err(e) => Err(e),
                                Ok(i5) => {
                                    if i < i5 <= toks.len() {
                                        match spec_parse_stmts(toks, i5, SpecToken::CurlyClose) {
                                            Err(e) => Err(e),
                                            Ok((body, jb)) => match spec_consume(
                                                toks,
                                                jb,
                                                SpecToken::CurlyClose,
                                            ) {
                                                Err(e) => Err(e),
                                                Ok(i6) => Ok(
                                                    (
                                                        SpecAst::FunctionDefinition(
                                                            name,
                                                            params,
                                                            body,
                                                        ),
                                                        i6,
                                                    ),
                                                ),
                                            },
                                        }
                                    } else {
                                        Err(
                                            SpecCompileError::Expected(
                                                ExpectKind::Statement,
                                                spec_cur(toks, i5),
                                            ),
                                        )
                                    }
                                },
                            },
                        },
                    },
                }
            },
            c => Err(SpecCompileError::Expected(ExpectKind::Identifier, c)),
        },
    }
}

/// One statement, dispatched on its first token.
pub open spec fn spec_parse_stmt(toks: Seq<SpecToken>, i: int) -> Result<
    (SpecAst, int),
    SpecCompileError,
>
    decreases toks.len() - i, 3int,
{
    match spec_cur(toks, i) {
        SpecToken::Function => spec_parse_fn_def(toks, i),
        SpecToken::Syscall(_) => match spec_parse_syscall(toks, i) {
            Err(e) => Err(e),
            Ok((node, j)) => match spec_consume(toks, j, SpecToken::Semicolon) {
                Err(e) => Err(e),
                Ok(j2) => Ok((node, j2)),
            },
        },
        SpecToken::Bool => spec_parse_var_decl(toks, i),
        SpecToken::Char => spec_parse_var_decl(toks, i),
        SpecToken::Str => spec_parse_var_decl(toks, i),
        SpecToken::Int8 => spec_parse_var_decl(toks, i),
        SpecToken::Int16 => spec_parse_var_decl(toks, i),
        SpecToken::Int32 => spec_parse_var_decl(toks, i),
        SpecToken::Mut => spec_parse_var_decl(toks, i),
        SpecToken::Identifier(_) => spec_parse_ident_stmt(toks, i),
        SpecToken::InlineAsm => spec_parse_inline_asm(toks, i),
        c => Err(SpecCompileError::Expected(ExpectKind::Statement, c)),
    }
}

/// Statements until the terminator token is the current token.
pub open spec fn spec_parse_stmts(toks: Seq<SpecToken>, i: int, term: SpecToken) -> Result<
    (Seq<SpecAst>, int),
    SpecCompileError,
>
    decreases toks.len() - i, 4int,
{
    if spec_cur(toks, i) == term {
        Ok((Seq::empty(), i))
    } else {
        match spec_parse_stmt(toks, i) {
            Err(e) => Err(e),
            Ok((n, j)) => {
                if i < j <= toks.len() {
                    match spec_parse_stmts(toks, j, term) {
                        Err(e) => Err(e),
                        Ok((rest, e)) => Ok((seq![n] + rest, e)),
                    }
                } else {
                    Err(SpecCompileError::Expected(ExpectKind::Statement, spec_cur(toks, j)))
                }
            },
        }
    }
}

/// The whole program: statements until `EOF`, wrapped in a `Program` node.
pub open spec fn spec_parse_program(toks: Seq<SpecToken>) -> Result<
    (SpecAst, int),
    SpecCompileError,
> {
    match spec_parse_stmts(toks, 0, SpecToken::EOF) {
        Err(e) => Err(e),
        Ok((stmts, e)) => Ok((SpecAst::Program(stmts), e)),
    }
}

/// An identifier token's name at position `i`, or the error.
pub open spec fn spec_consume_identifier(toks: Seq<SpecToken>, i: int) -> Result<
    (Seq<char>, int),
    SpecCompileError,
> {
    match spec_cur(toks, i) {
        SpecToken::Identifier(name) => Ok((name, i + 1)),
        c => Err(SpecCompileError::Expected(ExpectKind::Identifier, c)),
    }
}

/// The recursive-descent parser state: the token vector and the cursor.
#[derive(Debug)]
pub struct Parser {
    tokens: Vec<Token>,
    current: usize,
}

impl Parser {
    /// The views of the tokens being parsed.
    pub closed spec fn toks(&self) -> Seq<SpecToken> {
        crate::tokenizer::view_tokens(self.tokens@)
    }

    /// The cursor position.
    pub closed spec fn pos(&self) -> int {
        self.current as int
    }

    fn new(tokens: Vec<Token>) -> (p: Parser)
        ensures
            p.toks() == crate::tokenizer::view_tokens(tokens@),
            p.pos() == 0,
    {
        Parser { tokens, current: 0 }
    }

    /// The current token; `EOF` when the cursor is past the end.
    pub fn current_token(&self) -> (t: Token)
        ensures
            t@ == spec_cur(self.toks(), self.pos()),
    {
        if self.current < self.tokens.len() {
            self.tokens[self.current].duplicate()
        } else {
            Token::EOF
        }
    }

    /// Consume one expected token, or fail with the mismatch.
    pub fn consume(&mut self, token: Token) -> (r: Result<Token, CompileError>)
        ensures
            final(self).toks() == old(self).toks(),
            match r {
                Ok(t) => spec_consume(old(self).toks(), old(self).pos(), token@) == Ok::<
                    int,
                    SpecCompileError,
                >(final(self).pos()) && t@ == token@ && final(self).pos() == old(self).pos() + 1,
                Err(e) => spec_consume(old(self).toks(), old(self).pos(), token@) == Err::<
                    int,
                    SpecCompileError,
                >(e@) && final(self).pos() == old(self).pos(),
            },
    {
        if self.current < self.tokens.len() && self.tokens[self.current] == token {
            let consumed = self.tokens[self.current].duplicate();
            self.current = self.current + 1;
            Ok(consumed)
        } else {
            let found = self.current_token();
            Err(CompileError::UnexpectedToken(token, found))
        }
    }

    /// Consume an identifier token and hand its name back.
    fn consume_identifier(&mut self) -> (r: Result<String, CompileError>)
        ensures
            final(self).toks() == old(self).toks(),
            match r {
                Ok(name) => spec_consume_identifier(old(self).toks(), old(self).pos()) == Ok::<
                    _,
                    SpecCompileError,
                >((name@, final(self).pos())) && final(self).pos() == old(self).pos() + 1,
                Err(e) => spec_consume_identifier(old(self).toks(), old(self).pos()) == Err::<
                    (Seq<char>, int),
                    _,
                >(e@) && final(self).pos() == old(self).pos(),
            },
    {
        let t = self.current_token();
        match t {
            Token::Identifier(name) => {
                proof {
                    assert(t@ is Identifier);
                    assert(spec_cur(self.toks(), self.pos()) is Identifier);
                    assert(self.current < self.tokens.len());
                }
                self.current = self.current + 1;
                Ok(name)
            },
            other => Err(CompileError::Expected(ExpectKind::Identifier, other)),
        }
    }

    fn parse_bool(&mut self) -> (r: Result<AstNode, CompileError>)
        ensures
            final(self).toks() == old(self).toks(),
            match r {
                Ok(node) => spec_parse_datatype(old(self).toks(), old(self).pos(), SpecToken::Bool)
                    == Ok::<_, SpecCompileError>((node@, final(self).pos())) && final(self).pos()
                    == old(self).pos() + 1,
                Err(e) => spec_parse_datatype(old(self).toks(), old(self).pos(), SpecToken::Bool)
                    == Err::<(SpecAst, int), _>(e@),
            },
    {
        let t = self.current_token();
        match t {
            Token::BoolContainer(v) => {
                proof {
                    assert(t@ is BoolContainer);
                    assert(spec_cur(self.toks(), self.pos()) is BoolContainer);
                    assert(self.current < self.tokens.len());
                }
                self.current = self.current + 1;
                Ok(AstNode::IBool(v))
            },
            other => Err(CompileError::Expected(ExpectKind::Literal, other)),
        }
    }

    fn parse_char(&mut self) -> (r: Result<AstNode, CompileError>)
        ensures
            final(self).toks() == old(self).toks(),
            match r {
                Ok(node) => spec_parse_datatype(old(self).toks(), old(self).pos(), SpecToken::Char)
                    == Ok::<_, SpecCompileError>((node@, final(self).pos())) && final(self).pos()
                    == old(self).pos() + 1,
                Err(e) => spec_parse_datatype(old(self).toks(), old(self).pos(), SpecToken::Char)
                    == Err::<(SpecAst, int), _>(e@),
            },
    {
        let t = self.current_token();
        match t {
            Token::CharContainer(v) => {
                proof {
                    assert(t@ is CharContainer);
                    assert(spec_cur(self.toks(), self.pos()) is CharContainer);
                    assert(self.current < self.tokens.len());
                }
                self.current = self.current + 1;
                Ok(AstNode::IChar(v))
            },
            other => Err(CompileError::Expected(ExpectKind::Literal, other)),
        }
    }

    fn parse_int8(&mut self) -> (r: Result<AstNode, CompileError>)
        ensures
            final(self).toks() == old(self).toks(),
            match r {
                Ok(node) => spec_parse_datatype(old(self).toks(), old(self).pos(), SpecToken::Int8)
                    == Ok::<_, SpecCompileError>((node@, final(self).pos())) && final(self).pos()
                    == old(self).pos() + 1,
                Err(e) => spec_parse_datatype(old(self).toks(), old(self).pos(), SpecToken::Int8)
                    == Err::<(SpecAst, int), _>(e@),
            },
    {
        let t = self.current_token();
        match t {
            Token::Int8Container(v) => {
                proof {
                    assert(t@ is Int8Container);
                    assert(spec_cur(self.toks(), self.pos()) is Int8Container);
                    assert(self.current < self.tokens.len());
                }
                self.current = self.current + 1;
                Ok(AstNode::IInt8(v))
            },
            other => Err(CompileError::Expected(ExpectKind::Literal, other)),
        }
    }

    fn parse_int16(&mut self) -> (r: Result<AstNode, CompileError>)
        ensures
            final(self).toks() == old(self).toks(),
            match r {
                Ok(node) => spec_parse_datatype(old(self).toks(), old(self).pos(), SpecToken::Int16)
                    == Ok::<_, SpecCompileError>((node@, final(self).pos())) && final(self).pos()
                    == old(self).pos() + 1,
                Err(e) => spec_parse_datatype(old(self).toks(), old(self).pos(), SpecToken::Int16)
                    == Err::<(SpecAst, int), _>(e@),
            },
    {
        let t = self.current_token();
        match t {
            Token::Int8Container(v) => {
                proof {
                    assert(t@ is Int8Container);
                    assert(spec_cur(self.toks(), self.pos()) is Int8Container);
                    assert(self.current < self.tokens.len());
                }
                self.current = self.current + 1;
                Ok(AstNode::IInt16(v as i16))
            },
            Token::Int16Container(v) => {
                proof {
                    assert(t@ is Int16Container);
                    assert(spec_cur(self.toks(), self.pos()) is Int16Container);
                    assert(self.current < self.tokens.len());
                }
                self.current = self.current + 1;
                Ok(AstNode::IInt16(v))
            },
            other => Err(CompileError::Expected(ExpectKind::Literal, other)),
        }
    }

    fn parse_int32(&mut self) -> (r: Result<AstNode, CompileError>)
        ensures
            final(self).toks() == old(self).toks(),
            match r {
                Ok(node) => spec_parse_datatype(old(self).toks(), old(self).pos(), SpecToken::Int32)
                    == Ok::<_, SpecCompileError>((node@, final(self).pos())) && final(self).pos()
                    == old(self).pos() + 1,
                Err(e) => spec_parse_datatype(old(self).toks(), old(self).pos(), SpecToken::Int32)
                    == Err::<(SpecAst, int), _>(e@),
            },
    {
        let t = self.current_token();
        match t {
            Token::Int8Container(v) => {
                proof {
                    assert(t@ is Int8Container);
                    assert(spec_cur(self.toks(), self.pos()) is Int8Container);
                    assert(self.current < self.tokens.len());
                }
                self.current = self.current + 1;
                Ok(AstNode::IInt32(v as i32))
            },
            Token::Int16Container(v) => {
                proof {
                    assert(t@ is Int16Container);
                    assert(spec_cur(self.toks(), self.pos()) is Int16Container);
                    assert(self.current < self.tokens.len());
                }
                self.current = self.current + 1;
                Ok(AstNode::IInt32(v as i32))
            },
            Token::Int32Container(v) => {
                proof {
                    assert(t@ is Int32Container);
                    assert(spec_cur(self.toks(), self.pos()) is Int32Container);
                    assert(self.current < self.tokens.len());
                }
                self.current = self.current + 1;
                Ok(AstNode::IInt32(v))
            },
            other => Err(CompileError::Expected(ExpectKind::Literal, other)),
        }
    }

    fn parse_str(&mut self) -> (r: Result<AstNode, CompileError>)
        ensures
            final(self).toks() == old(self).toks(),
            match r {
                Ok(node) => spec_parse_datatype(old(self).toks(), old(self).pos(), SpecToken::Str)
                    == Ok::<_, SpecCompileError>((node@, final(self).pos())) && final(self).pos()
                    == old(self).pos() + 1,
                Err(e) => spec_parse_datatype(old(self).toks(), old(self).pos(), SpecToken::Str)
                    == Err::<(SpecAst, int), _>(e@),
            },
    {
        let t = self.current_token();
        match t {
            Token::StrContainer(s) => {
                proof {
                    assert(t@ is StrContainer);
                    assert(spec_cur(self.toks(), self.pos()) is StrContainer);
                    assert(self.current < self.tokens.len());
                }
                self.current = self.current + 1;
                Ok(AstNode::IStr(s))
            },
            other => Err(CompileError::Expected(ExpectKind::Literal, other)),
        }
    }

    /// A literal of the given declared type.
    fn parse_datatype(&mut self, var_type: &Token) -> (r: Result<AstNode, CompileError>)
        ensures
            final(self).toks() == old(self).toks(),
            match r {
                Ok(node) => spec_parse_datatype(old(self).toks(), old(self).pos(), var_type@)
                    == Ok::<_, SpecCompileError>((node@, final(self).pos())) && final(self).pos()
                    == old(self).pos() + 1,
                Err(e) => spec_parse_datatype(old(self).toks(), old(self).pos(), var_type@)
                    == Err::<(SpecAst, int), _>(e@),
            },
    {
        match var_type {
            Token::Bool => self.parse_bool(),
            Token::Char => self.parse_char(),
            Token::Int8 => self.parse_int8(),
            Token::Int16 => self.parse_int16(),
            Token::Int32 => self.parse_int32(),
            Token::Str => self.parse_str(),
            other => Err(CompileError::Expected(ExpectKind::DeclaredType, other.duplicate())),
        }
    }

    /// One function parameter: `mut`? TYPE IDENT.
    fn parse_parameter(&mut self) -> (r: Result<AstNode, CompileError>)
        ensures
            final(self).toks() == old(self).toks(),
            match r {
                Ok(node) => spec_parse_param(old(self).toks(), old(self).pos()) == Ok::<
                    _,
                    SpecCompileError,
                >((node@, final(self).pos())) && old(self).pos() < final(self).pos()
                    <= final(self).toks().len(),
                Err(e) => spec_parse_param(old(self).toks(), old(self).pos()) == Err::<
                    (SpecAst, int),
                    _,
                >(e@),
            },
    {
        let mut mutable = false;
        let t = self.current_token();
        proof {
            assert(t@ == spec_cur(self.toks(), self.pos()));
        }
        if let Token::Mut = t {
            proof {
                assert(t@ is Mut);
                assert(spec_cur(self.toks(), self.pos()) is Mut);
                assert(self.current < self.tokens.len());
            }
            self.current = self.current + 1;
            mutable = true;
        }
        let param_type = self.current_token();
        let is_ty = match param_type {
            Token::Bool | Token::Char | Token::Str | Token::Int8 | Token::Int16
            | Token::Int32 => true,
            _ => false,
        };
        if !is_ty {
            return Err(CompileError::Expected(ExpectKind::ParamType, param_type));
        }
        proof {
            assert(is_type_keyword(param_type@));
            assert(is_type_keyword(spec_cur(self.toks(), self.pos())));
            assert(self.current < self.tokens.len());
        }
        self.current = self.current + 1;
        let name = match self.consume_identifier() {
            Ok(n) => n,
            Err(e) => {
                return Err(e);
            },
        };
        let ty_node = AstNode::Type(param_type, mutable);
        proof {
            assert(ty_node@ == SpecAst::Type(param_type@, mutable));
        }
        let node = AstNode::Identifier(name, Box::new(ty_node));
        proof {
            assert(node@ == SpecAst::Identifier(
                name@,
                Box::new(SpecAst::Type(param_type@, mutable)),
            ));
            assert(mutable == (spec_cur(old(self).toks(), old(self).pos()) == SpecToken::Mut));
        }
        Ok(node)
    }

    /// A syscall expression, dispatched on its name. The current token
    /// must be the `$name` token itself.
    fn parse_syscall(&mut self, syscall: String) -> (r: Result<AstNode, CompileError>)
        requires
            spec_cur(old(self).toks(), old(self).pos()) == SpecToken::Syscall(syscall@),
        ensures
            final(self).toks() == old(self).toks(),
            match r {
                Ok(node) => spec_parse_syscall(old(self).toks(), old(self).pos()) == Ok::<
                    _,
                    SpecCompileError,
                >((node@, final(self).pos())) && old(self).pos() < final(self).pos()
                    <= final(self).toks().len(),
                Err(e) => spec_parse_syscall(old(self).toks(), old(self).pos()) == Err::<
                    (SpecAst, int),
                    _,
                >(e@),
            },
    {
        let sub = if str_eq(syscall.as_str(), "write") {
            crate::syscalls::parse_sys_write(self)
        } else if str_eq(syscall.as_str(), "read") {
            crate::syscalls::parse_sys_read(self)
        } else if str_eq(syscall.as_str(), "exit") {
            crate::syscalls::parse_sys_exit(self)
        } else if str_eq(syscall.as_str(), "open") {
            crate::syscalls::parse_sys_open(self)
        } else if str_eq(syscall.as_str(), "sysinfo") {
            crate::syscalls::parse_sys_sysinfo(self)
        } else {
            return Err(CompileError::UnknownSyscall(syscall));
        };
        match sub {
            Ok(inner) => {
                let node = AstNode::Syscall(syscall, Box::new(inner));
                proof {
                    assert(exists|b: Box<AstNode>|
                        node == AstNode::Syscall(syscall, b) && (#[trigger] crate::ast::view_ast(
                            *b,
                        )) == inner@);
                }
                Ok(node)
            },
            Err(e) => Err(e),
        }
    }

    /// An inline assembly statement: `asm { "LINE", ... };`.
    #[verifier::loop_isolation(false)]
    fn parse_inline_asm(&mut self) -> (r: Result<AstNode, CompileError>)
        ensures
            final(self).toks() == old(self).toks(),
            match r {
                Ok(node) => spec_parse_inline_asm(old(self).toks(), old(self).pos()) == Ok::<
                    _,
                    SpecCompileError,
                >((node@, final(self).pos())) && old(self).pos() < final(self).pos()
                    <= final(self).toks().len(),
                Err(e) => spec_parse_inline_asm(old(self).toks(), old(self).pos()) == Err::<
                    (SpecAst, int),
                    _,
                >(e@),
            },
    {
        if let Err(e) = self.consume(Token::InlineAsm) {
            return Err(e);
        }
        if let Err(e) = self.consume(Token::CurlyOpen) {
            return Err(e);
        }
        let ghost toks0 = self.toks();
        let ghost start = self.pos();
        let mut asm_lines: Vec<String> = Vec::new();
        proof {
            assert(view_strings(asm_lines@) =~= Seq::<Seq<char>>::empty());
            lemma_cat_lines_nil(spec_parse_asm_lines(toks0, start));
        }
        let mut done = false;
        while !done
            invariant
                self.toks() == toks0,
                start <= self.pos() <= toks0.len(),
                spec_parse_asm_lines(toks0, start) == cat_lines(
                    view_strings(asm_lines@),
                    spec_parse_asm_lines(toks0, self.pos()),
                ),
                done ==> spec_parse_asm_lines(toks0, self.pos()) == Ok::<_, SpecCompileError>(
                    (Seq::<Seq<char>>::empty(), self.pos()),
                ),
            decreases toks0.len() - self.pos() + (if done {
                0int
            } else {
                1int
            }),
        {
            let ghost p = self.pos();
            let ghost pre = view_strings(asm_lines@);
            let t = self.current_token();
            let stop = match &t {
                Token::CurlyClose => true,
                Token::EOF => true,
                _ => false,
            };
            if stop {
                done = true;
            } else {
            match t {
                Token::StrContainer(line) => {
                    proof {
                        assert(self.current < self.tokens.len());
                    }
                    self.current = self.current + 1;
                    let t2 = self.current_token();
                    if let Token::Comma = t2 {
                        proof {
                            assert(self.current < self.tokens.len());
                        }
                        self.current = self.current + 1;
                    }
                    let ghost lv = line@;
                    asm_lines.push(line);
                    proof {
                        assert(view_strings(asm_lines@) =~= pre.push(lv));
                        lemma_cat_lines_step(toks0, pre, lv, p, self.pos());
                    }
                },
                other => {
                    return Err(CompileError::Expected(ExpectKind::AsmLine, other));
                },
            }
            }
        }
        proof {
            assert(view_strings(asm_lines@) + Seq::<Seq<char>>::empty() =~= view_strings(
                asm_lines@,
            ));
        }
        let ghost jl = self.pos();
        if let Err(e) = self.consume(Token::CurlyClose) {
            return Err(e);
        }
        if let Err(e) = self.consume(Token::Semicolon) {
            return Err(e);
        }
        let node = AstNode::InlineAsm(asm_lines);
        proof {
            assert(node@ == SpecAst::InlineAsm(view_strings(asm_lines@)));
        }
        Ok(node)
    }

    /// The assignment tail of an identifier statement: `= LITERAL ;`.
    fn parse_variable_assignment(&mut self, identifier: String) -> (r: Result<
        AstNode,
        CompileError,
    >)
        ensures
            final(self).toks() == old(self).toks(),
            match r {
                Ok(node) => spec_parse_assignment(old(self).toks(), old(self).pos(), identifier@)
                    == Ok::<_, SpecCompileError>((node@, final(self).pos())) && old(self).pos()
                    < final(self).pos() <= final(self).toks().len(),
                Err(e) => spec_parse_assignment(old(self).toks(), old(self).pos(), identifier@)
                    == Err::<(SpecAst, int), _>(e@),
            },
    {
        if let Err(e) = self.consume(Token::Equals) {
            return Err(e);
        }
        let c = self.current_token();
        let val = match &c {
            Token::BoolContainer(_) => self.parse_datatype(&Token::Bool),
            Token::CharContainer(_) => self.parse_datatype(&Token::Char),
            Token::Int8Container(_) => self.parse_datatype(&Token::Int8),
            Token::Int16Container(_) => self.parse_datatype(&Token::Int16),
            Token::Int32Container(_) => self.parse_datatype(&Token::Int32),
            Token::StrContainer(_) => self.parse_datatype(&Token::Str),
            _ => {
                return Err(CompileError::Expected(ExpectKind::AssignValue, c));
            },
        };
        let value = match val {
            Ok(v) => v,
            Err(e) => {
                return Err(e);
            },
        };
        if let Err(e) = self.consume(Token::Semicolon) {
            return Err(e);
        }
        let node = AstNode::VariableAssignment(identifier, Box::new(value));
        proof {
            assert(exists|b: Box<AstNode>|
                node == AstNode::VariableAssignment(identifier, b)
                    && (#[trigger] crate::ast::view_ast(*b)) == value@);
        }
        Ok(node)
    }

    /// A statement beginning with an identifier.
    fn parse_identifier_statement(&mut self) -> (r: Result<AstNode, CompileError>)
        ensures
            final(self).toks() == old(self).toks(),
            match r {
                Ok(node) => spec_parse_ident_stmt(old(self).toks(), old(self).pos()) == Ok::<
                    _,
                    SpecCompileError,
                >((node@, final(self).pos())) && old(self).pos() < final(self).pos()
                    <= final(self).toks().len(),
                Err(e) => spec_parse_ident_stmt(old(self).toks(), old(self).pos()) == Err::<
                    (SpecAst, int),
                    _,
                >(e@),
            },
    {
        let identifier = match self.consume_identifier() {
            Ok(n) => n,
            Err(e) => {
                return Err(e);
            },
        };
        let t = self.current_token();
        match t {
            Token::Equals => self.parse_variable_assignment(identifier),
            Token::ParentOpen => Err(CompileError::FunctionCallUnsupported(identifier)),
            other => Err(CompileError::Expected(ExpectKind::AssignOrCall, other)),
        }
    }

    /// A variable declaration statement, with or without an initializer.
    fn parse_variable_declaration(&mut self) -> (r: Result<AstNode, CompileError>)
        ensures
            final(self).toks() == old(self).toks(),
            match r {
                Ok(node) => spec_parse_var_decl(old(self).toks(), old(self).pos()) == Ok::<
                    _,
                    SpecCompileError,
                >((node@, final(self).pos())) && old(self).pos() < final(self).pos()
                    <= final(self).toks().len(),
                Err(e) => spec_parse_var_decl(old(self).toks(), old(self).pos()) == Err::<
                    (SpecAst, int),
                    _,
                >(e@),
            },
    {
        let ghost i0 = self.pos();
        let mut mutable = false;
        let t = self.current_token();
        if let Token::Mut = t {
            proof {
                assert(self.current < self.tokens.len());
            }
            self.current = self.current + 1;
            mutable = true;
        }
        if self.current >= self.tokens.len() {
            return Err(CompileError::UnexpectedToken(Token::EOF, Token::EOF));
        }
        let var_type = self.current_token();
        self.current = self.current + 1;
        let name = match self.consume_identifier() {
            Ok(n) => n,
            Err(e) => {
                return Err(e);
            },
        };
        let t3 = self.current_token();
        if let Token::Semicolon = t3 {
            proof {
                assert(self.current < self.tokens.len());
            }
            self.current = self.current + 1;
            let ty_node = AstNode::Type(var_type, mutable);
            proof {
                assert(ty_node@ == SpecAst::Type(var_type@, mutable));
            }
            let node = AstNode::VariableBufferDeclaration(name, Box::new(ty_node));
            proof {
                assert(node@ == SpecAst::VariableBufferDeclaration(
                    name@,
                    Box::new(SpecAst::Type(var_type@, mutable)),
                ));
            }
            return Ok(node);
        }
        if let Err(e) = self.consume(Token::Equals) {
            return Err(e);
        }
        let c = self.current_token();
        let is_literal = match &c {
            Token::BoolContainer(_) => true,
            Token::CharContainer(_) => true,
            Token::Int8Container(_) => true,
            Token::Int16Container(_) => true,
            Token::Int32Container(_) => true,
            Token::StrContainer(_) => true,
            _ => false,
        };
        let val = if is_literal {
            self.parse_datatype(&var_type)
        } else {
            match c {
                Token::Syscall(sys) => {
                    proof {
                        assert(spec_cur(self.toks(), self.pos()) == SpecToken::Syscall(sys@));
                    }
                    self.parse_syscall(sys)
                },
                other => {
                    return Err(CompileError::Expected(ExpectKind::DeclValue, other));
                },
            }
        };
        let value = match val {
            Ok(v) => v,
            Err(e) => {
                return Err(e);
            },
        };
        if let Err(e) = self.consume(Token::Semicolon) {
            return Err(e);
        }
        let ty_node = AstNode::Type(var_type, mutable);
        proof {
            assert(ty_node@ == SpecAst::Type(var_type@, mutable));
        }
        let node = AstNode::VariableDeclaration(name, Box::new(value), Box::new(ty_node));
        proof {
            assert(exists|b: Box<AstNode>, b2: Box<AstNode>|
                node == AstNode::VariableDeclaration(name, b, b2) && (#[trigger] crate::ast::view_ast(
                    *b,
                )) == value@ && (#[trigger] crate::ast::view_ast(*b2)) == SpecAst::Type(
                    var_type@,
                    mutable,
                ));
        }
        Ok(node)
    }

    /// A function definition: `fn NAME ( PARAM,* ) { STATEMENT* }`.
    #[verifier::loop_isolation(false)]
    fn parse_function_definition(&mut self) -> (r: Result<AstNode, CompileError>)
        ensures
            final(self).toks() == old(self).toks(),
            match r {
                Ok(node) => spec_parse_fn_def(old(self).toks(), old(self).pos()) == Ok::<
                    _,
                    SpecCompileError,
                >((node@, final(self).pos())) && old(self).pos() < final(self).pos()
                    <= final(self).toks().len(),
                Err(e) => spec_parse_fn_def(old(self).toks(), old(self).pos()) == Err::<
                    (SpecAst, int),
                    _,
                >(e@),
            },
        decreases self.toks().len() - self.pos(), 0int,
    {
        let ghost toks0 = self.toks();
        let ghost i0 = self.pos();
        if let Err(e) = self.consume(Token::Function) {
            return Err(e);
        }
        let name = match self.consume_identifier() {
            Ok(n) => n,
            Err(e) => {
                return Err(e);
            },
        };
        if let Err(e) = self.consume(Token::ParentOpen) {
            return Err(e);
        }
        let ghost pstart = self.pos();
        let mut params: Vec<AstNode> = Vec::new();
        proof {
            assert(view_asts(params@) =~= Seq::<SpecAst>::empty());
            lemma_cat_nodes_nil(spec_parse_params(toks0, pstart));
        }
        let mut pdone = false;
        while !pdone
            invariant
                self.toks() == toks0,
                i0 < pstart <= self.pos() <= toks0.len(),
                spec_parse_params(toks0, pstart) == cat_nodes(
                    view_asts(params@),
                    spec_parse_params(toks0, self.pos()),
                ),
                pdone ==> spec_cur(toks0, self.pos()) == SpecToken::ParentClose,
            decreases toks0.len() - self.pos() + (if pdone {
                0int
            } else {
                1int
            }),
        {
            let ghost p = self.pos();
            let ghost pre = view_asts(params@);
            let t = self.current_token();
            if let Token::ParentClose = t {
                pdone = true;
            } else {
            let param = match self.parse_parameter() {
                Ok(n) => n,
                Err(e) => {
                    return Err(e);
                },
            };
            let t2 = self.current_token();
            if let Token::Comma = t2 {
                proof {
                    assert(self.current < self.tokens.len());
                }
                self.current = self.current + 1;
            }
            let ghost pv = crate::ast::view_ast(param);
            let ghost pvec = params@;
            params.push(param);
            proof {
                lemma_view_asts_push(pvec, param);
                assert(view_asts(params@) == pre.push(pv));
                lemma_cat_nodes_step(spec_parse_params(toks0, self.pos()), pre, pv);
            }
            }
        }
        proof {
            assert(view_asts(params@) + Seq::<SpecAst>::empty() =~= view_asts(params@));
        }
        if let Err(e) = self.consume(Token::ParentClose) {
            proof {
                assert(false);
            }
            return Err(e);
        }
        if let Err(e) = self.consume(Token::CurlyOpen) {
            return Err(e);
        }
        let ghost bstart = self.pos();
        let mut body: Vec<AstNode> = Vec::new();
        proof {
            assert(view_asts(body@) =~= Seq::<SpecAst>::empty());
            lemma_cat_nodes_nil(spec_parse_stmts(toks0, bstart, SpecToken::CurlyClose));
        }
        let mut bdone = false;
        while !bdone
            invariant
                self.toks() == toks0,
                i0 < bstart <= self.pos() <= toks0.len(),
                spec_parse_stmts(toks0, bstart, SpecToken::CurlyClose) == cat_nodes(
                    view_asts(body@),
                    spec_parse_stmts(toks0, self.pos(), SpecToken::CurlyClose),
                ),
                bdone ==> spec_cur(toks0, self.pos()) == SpecToken::CurlyClose,
            decreases toks0.len() - self.pos() + (if bdone {
                0int
            } else {
                1int
            }),
        {
            let ghost p = self.pos();
            let ghost pre = view_asts(body@);
            let t = self.current_token();
            if let Token::CurlyClose = t {
                bdone = true;
            } else {
            let stmt = match self.parse_statement() {
                Ok(n) => n,
                Err(e) => {
                    return Err(e);
                },
            };
            let ghost sv = crate::ast::view_ast(stmt);
            let ghost bvec = body@;
            body.push(stmt);
            proof {
                lemma_view_asts_push(bvec, stmt);
                assert(view_asts(body@) == pre.push(sv));
                lemma_cat_nodes_step(
                    spec_parse_stmts(toks0, self.pos(), SpecToken::CurlyClose),
                    pre,
                    sv,
                );
            }
            }
        }
        proof {
            assert(view_asts(body@) + Seq::<SpecAst>::empty() =~= view_asts(body@));
        }
        if let Err(e) = self.consume(Token::CurlyClose) {
            proof {
                assert(false);
            }
            return Err(e);
        }
        let node = AstNode::FunctionDefinition(name, params, body);
        proof {
            assert(node@ == SpecAst::FunctionDefinition(name@, view_asts(params@), view_asts(
                body@,
            )));
        }
        Ok(node)
    }

    /// One statement, dispatched on its first token.
    fn parse_statement(&mut self) -> (r: Result<AstNode, CompileError>)
        ensures
            final(self).toks() == old(self).toks(),
            match r {
                Ok(node) => spec_parse_stmt(old(self).toks(), old(self).pos()) == Ok::<
                    _,
                    SpecCompileError,
                >((node@, final(self).pos())) && old(self).pos() < final(self).pos()
                    <= final(self).toks().len(),
                Err(e) => spec_parse_stmt(old(self).toks(), old(self).pos()) == Err::<
                    (SpecAst, int),
                    _,
                >(e@),
            },
        decreases self.toks().len() - self.pos(), 1int,
    {
        let t = self.current_token();
        match t {
            Token::Function => self.parse_function_definition(),
            Token::Syscall(name) => {
                proof {
                    assert(spec_cur(self.toks(), self.pos()) == SpecToken::Syscall(name@));
                }
                let node = match self.parse_syscall(name) {
                    Ok(n) => n,
                    Err(e) => {
                        return Err(e);
                    },
                };
                match self.consume(Token::Semicolon) {
                    Ok(_) => Ok(node),
                    Err(e) => Err(e),
                }
            },
            Token::Bool => self.parse_variable_declaration(),
            Token::Char => self.parse_variable_declaration(),
            Token::Str => self.parse_variable_declaration(),
            Token::Int8 => self.parse_variable_declaration(),
            Token::Int16 => self.parse_variable_declaration(),
            Token::Int32 => self.parse_variable_declaration(),
            Token::Mut => self.parse_variable_declaration(),
            Token::Identifier(_) => self.parse_identifier_statement(),
            Token::InlineAsm => self.parse_inline_asm(),
            other => Err(CompileError::Expected(ExpectKind::Statement, other)),
        }
    }

    #[verifier::loop_isolation(false)]
    fn parse(&mut self) -> (r: Result<AstNode, CompileError>)
        requires
            old(self).pos() == 0,
        ensures
            match r {
                Ok(node) => spec_parse_program(old(self).toks()) matches Ok(p) && p.0 == node@,
                Err(e) => spec_parse_program(old(self).toks()) == Err::<(SpecAst, int), _>(e@),
            },
    {
        let ghost toks0 = self.toks();
        let mut statements: Vec<AstNode> = Vec::new();
        proof {
            assert(view_asts(statements@) =~= Seq::<SpecAst>::empty());
            lemma_cat_nodes_nil(spec_parse_stmts(toks0, 0, SpecToken::EOF));
        }
        let mut done = false;
        while !done
            invariant
                self.toks() == toks0,
                0 <= self.pos() <= toks0.len(),
                spec_parse_stmts(toks0, 0, SpecToken::EOF) == cat_nodes(
                    view_asts(statements@),
                    spec_parse_stmts(toks0, self.pos(), SpecToken::EOF),
                ),
                done ==> spec_cur(toks0, self.pos()) == SpecToken::EOF,
            decreases toks0.len() - self.pos() + (if done {
                0int
            } else {
                1int
            }),
        {
            let ghost p = self.pos();
            let ghost pre = view_asts(statements@);
            let t = self.current_token();
            if let Token::EOF = t {
                done = true;
            } else {
            let stmt = match self.parse_statement() {
                Ok(n) => n,
                Err(e) => {
                    return Err(e);
                },
            };
            let ghost sv = crate::ast::view_ast(stmt);
            let ghost svec = statements@;
            statements.push(stmt);
            proof {
                lemma_view_asts_push(svec, stmt);
                assert(view_asts(statements@) == pre.push(sv));
                lemma_cat_nodes_step(spec_parse_stmts(toks0, self.pos(), SpecToken::EOF), pre, sv);
            }
            }
        }
        proof {
            assert(view_asts(statements@) + Seq::<SpecAst>::empty() =~= view_asts(statements@));
        }
        let node = AstNode::Program(statements);
        proof {
            assert(node@ == SpecAst::Program(view_asts(statements@)));
        }
        Ok(node)
    }
}

/// `Ok` with nodes prepended, or the unchanged error.
pub open spec fn cat_nodes(
    pre: Seq<SpecAst>,
    r: Result<(Seq<SpecAst>, int), SpecCompileError>,
) -> Result<(Seq<SpecAst>, int), SpecCompileError> {
    match r {
        Ok((s, e)) => Ok((pre + s, e)),
        Err(e) => Err(e),
    }
}

/// `Ok` with lines prepended, or the unchanged error.
pub open spec fn cat_lines(
    pre: Seq<Seq<char>>,
    r: Result<(Seq<Seq<char>>, int), SpecCompileError>,
) -> Result<(Seq<Seq<char>>, int), SpecCompileError> {
    match r {
        Ok((s, e)) => Ok((pre + s, e)),
        Err(e) => Err(e),
    }
}

proof fn lemma_cat_nodes_nil(r: Result<(Seq<SpecAst>, int), SpecCompileError>)
    ensures
        cat_nodes(Seq::empty(), r) == r,
{
    match r {
        Ok((s, e)) => {
            assert(Seq::<SpecAst>::empty() + s =~= s);
        },
        Err(_) => {},
    }
}

proof fn lemma_cat_lines_nil(r: Result<(Seq<Seq<char>>, int), SpecCompileError>)
    ensures
        cat_lines(Seq::empty(), r) == r,
{
    match r {
        Ok((s, e)) => {
            assert(Seq::<Seq<char>>::empty() + s =~= s);
        },
        Err(_) => {},
    }
}

proof fn lemma_cat_nodes_step(
    r: Result<(Seq<SpecAst>, int), SpecCompileError>,
    pre: Seq<SpecAst>,
    n: SpecAst,
)
    ensures
        cat_nodes(pre, cat_nodes(seq![n], r)) == cat_nodes(pre.push(n), r),
{
    match r {
        Ok((s, e)) => {
            assert(pre + (seq![n] + s) =~= pre.push(n) + s);
        },
        Err(_) => {},
    }
}

proof fn lemma_cat_lines_step(
    toks: Seq<SpecToken>,
    pre: Seq<Seq<char>>,
    l: Seq<char>,
    p: int,
    np: int,
)
    requires
        spec_parse_asm_lines(toks, p) == cat_lines(seq![l], spec_parse_asm_lines(toks, np)),
    ensures
        cat_lines(pre, spec_parse_asm_lines(toks, p)) == cat_lines(
            pre.push(l),
            spec_parse_asm_lines(toks, np),
        ),
{
    match spec_parse_asm_lines(toks, np) {
        Ok((s, e)) => {
            assert(pre + (seq![l] + s) =~= pre.push(l) + s);
        },
        Err(_) => {},
    }
}

/// Every successful statement-list parse ends standing on its
/// terminator token, within the token sequence's bounds.
pub proof fn lemma_stmts_end_at_term(toks: Seq<SpecToken>, i: int, term: SpecToken)
    requires
        0 <= i <= toks.len(),
    ensures
        spec_parse_stmts(toks, i, term) matches Ok(p) ==> i <= p.1 <= toks.len() && spec_cur(
            toks,
            p.1,
        ) == term,
    decreases toks.len() - i,
{
    if spec_cur(toks, i) != term {
        match spec_parse_stmt(toks, i) {
            Ok((n, j)) => {
                if i < j <= toks.len() {
                    lemma_stmts_end_at_term(toks, j, term);
                }
            },
            Err(_) => {},
        }
    }
}

/// Law: a successful parse of a token sequence that holds exactly one
/// `EOF`, at its end, consumes every token before that `EOF` and stops
/// on it.
pub proof fn lemma_parse_consumes_all(toks: Seq<SpecToken>)
    requires
        toks.len() >= 1,
        toks.last() == SpecToken::EOF,
        crate::tokenizer::count_eof(toks) == 1,
    ensures
        spec_parse_program(toks) matches Ok(p) ==> p.1 == toks.len() - 1 || p.1 == toks.len(),
{
    lemma_stmts_end_at_term(toks, 0, SpecToken::EOF);
    match spec_parse_program(toks) {
        Ok(p) => {
            if p.1 < toks.len() - 1 {
                lemma_count_eof_positions(toks, p.1);
            }
        },
        Err(_) => {},
    }
}

/// A sequence whose `EOF` count is one has no `EOF` before its last
/// position.
proof fn lemma_count_eof_positions(toks: Seq<SpecToken>, p: int)
    requires
        toks.len() >= 1,
        toks.last() == SpecToken::EOF,
        crate::tokenizer::count_eof(toks) == 1,
        0 <= p < toks.len() - 1,
    ensures
        !(toks[p] is EOF),
    decreases p,
{
    if toks[p] is EOF {
        lemma_count_eof_bound(toks, p);
    }
}

/// Counting from the front: an `EOF` at position `p` and another at the
/// end make the count at least two.
proof fn lemma_count_eof_bound(toks: Seq<SpecToken>, p: int)
    requires
        toks.len() >= 1,
        toks.last() == SpecToken::EOF,
        0 <= p < toks.len() - 1,
        toks[p] is EOF,
    ensures
        crate::tokenizer::count_eof(toks) >= 2,
    decreases p,
{
    if p == 0 {
        lemma_count_eof_has_last(toks.drop_first());
    } else {
        lemma_count_eof_bound(toks.drop_first(), p - 1);
        assert(toks.drop_first().last() == toks.last());
    }
}

/// A sequence ending in `EOF` counts at least one `EOF`.
proof fn lemma_count_eof_has_last(toks: Seq<SpecToken>)
    requires
        toks.len() >= 1,
        toks.last() == SpecToken::EOF,
    ensures
        crate::tokenizer::count_eof(toks) >= 1,
    decreases toks.len(),
{
    if toks.len() > 1 {
        lemma_count_eof_has_last(toks.drop_first());
        assert(toks.drop_first().last() == toks.last());
    }
}

/// Law: the token sequence of any lexed source ends with exactly one
/// `EOF`, and a successful parse of it consumes every token up to that
/// final `EOF` and stops on or just past it.
pub proof fn lemma_pipeline_consumes_all(src: Seq<char>, toks: Seq<SpecToken>)
    requires
        crate::tokenizer::spec_tokenize(src, 0) == Some(toks),
    ensures
        toks.len() >= 1,
        toks.last() == SpecToken::EOF,
        crate::tokenizer::count_eof(toks) == 1,
        spec_parse_program(toks) matches Ok(p) ==> p.1 == toks.len() - 1 || p.1 == toks.len(),
{
    crate::tokenizer::lemma_tokenize_single_eof(src, 0);
    lemma_parse_consumes_all(toks);
}

/// Parse a token sequence into the program AST, or fail on the first
/// token that fits no production.
pub fn parse(tokens: Vec<Token>) -> (r: Result<AstNode, CompileError>)
    ensures
        match r {
            Ok(node) => spec_parse_program(view_tokens(tokens@)) matches Ok(p) && p.0 == node@,
            Err(e) => spec_parse_program(view_tokens(tokens@)) == Err::<(SpecAst, int), _>(e@),
        },
{
    let mut parser = Parser::new(tokens);
    parser.parse()
}

} // verus!

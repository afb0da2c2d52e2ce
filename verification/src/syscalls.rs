//! The per-syscall argument parsers. Each accepts one fixed argument
//! shape, mirroring `spec_parse_sys_*` in the parser module.

use vstd::prelude::*;
use vstd::string::*;
use crate::ast::AstNode;
use crate::errors::{CompileError, ExpectKind};
use crate::parser::{
    spec_cur, spec_parse_int_or_identifier, spec_parse_sys_exit, spec_parse_sys_open,
    spec_parse_sys_read, spec_parse_sys_sysinfo, spec_parse_sys_write, Parser,
};
use crate::tokenizer::{SpecToken, Token};

verus! {

/// An integer literal or identifier argument.
fn parse_int_or_identifier(parser: &mut Parser) -> (r: Result<Token, CompileError>)
    ensures
        final(parser).toks() == old(parser).toks(),
        match r {
            Ok(t) => spec_parse_int_or_identifier(old(parser).toks(), old(parser).pos()) == Ok::<
                _,
                crate::errors::SpecCompileError,
            >((t@, final(parser).pos())) && final(parser).pos() == old(parser).pos() + 1,
            Err(e) => spec_parse_int_or_identifier(old(parser).toks(), old(parser).pos()) == Err::<
                (SpecToken, int),
                _,
            >(e@),
        },
{
    let t = parser.current_token();
    let ok = match &t {
        Token::Int8Container(_) => true,
        Token::Int16Container(_) => true,
        Token::Int32Container(_) => true,
        Token::Identifier(_) => true,
        _ => false,
    };
    if ok {
        proof {
            assert(t@ is Int8Container || t@ is Int16Container || t@ is Int32Container || t@
                is Identifier);
            assert(spec_cur(old(parser).toks(), old(parser).pos()) is Int8Container || spec_cur(
                old(parser).toks(),
                old(parser).pos(),
            ) is Int16Container || spec_cur(old(parser).toks(), old(parser).pos())
                is Int32Container || spec_cur(old(parser).toks(), old(parser).pos())
                is Identifier);
        }
        let c = parser.consume(t.duplicate());
        match c {
            Ok(consumed) => Ok(consumed),
            Err(e) => {
                proof {
                    assert(false);
                }
                Err(e)
            },
        }
    } else {
        Err(CompileError::Expected(ExpectKind::IntOrIdentifier, t))
    }
}

/// `$write(fd, data)`: fd an int literal or identifier, data a string
/// literal or identifier.
pub fn parse_sys_write(parser: &mut Parser) -> (r: Result<AstNode, CompileError>)
    ensures
        final(parser).toks() == old(parser).toks(),
        match r {
            Ok(node) => spec_parse_sys_write(old(parser).toks(), old(parser).pos()) == Ok::<
                _,
                crate::errors::SpecCompileError,
            >((node@, final(parser).pos())) && old(parser).pos() < final(parser).pos()
                <= final(parser).toks().len(),
            Err(e) => spec_parse_sys_write(old(parser).toks(), old(parser).pos()) == Err::<
                (crate::ast::SpecAst, int),
                _,
            >(e@),
        },
{
    if let Err(e) = parser.consume(Token::Syscall("write".to_owned())) {
        return Err(e);
    }
    if let Err(e) = parser.consume(Token::ParentOpen) {
        return Err(e);
    }
    let fd = match parse_int_or_identifier(parser) {
        Ok(t) => t,
        Err(e) => {
            return Err(e);
        },
    };
    if let Err(e) = parser.consume(Token::Comma) {
        return Err(e);
    }
    let d = parser.current_token();
    let data_ok = match &d {
        Token::StrContainer(_) => true,
        Token::Identifier(_) => true,
        _ => false,
    };
    if !data_ok {
        return Err(CompileError::Expected(ExpectKind::StringOrIdentifier, d));
    }
    proof {
        assert(d@ is StrContainer || d@ is Identifier);
        assert(spec_cur(parser.toks(), parser.pos()) is StrContainer || spec_cur(
            parser.toks(),
            parser.pos(),
        ) is Identifier);
    }
    let data = match parser.consume(d) {
        Ok(t) => t,
        Err(_) => {
            proof {
                assert(false);
            }
            return Err(CompileError::Expected(ExpectKind::StringOrIdentifier, Token::EOF));
        },
    };
    if let Err(e) = parser.consume(Token::ParentClose) {
        return Err(e);
    }
    let node = AstNode::Write(fd, data);
    proof {
        assert(node@ == crate::ast::SpecAst::Write(fd@, data@));
    }
    Ok(node)
}

/// `$read(fd, buffer)`: fd an int literal or identifier, buffer an
/// identifier.
pub fn parse_sys_read(parser: &mut Parser) -> (r: Result<AstNode, CompileError>)
    ensures
        final(parser).toks() == old(parser).toks(),
        match r {
            Ok(node) => spec_parse_sys_read(old(parser).toks(), old(parser).pos()) == Ok::<
                _,
                crate::errors::SpecCompileError,
            >((node@, final(parser).pos())) && old(parser).pos() < final(parser).pos()
                <= final(parser).toks().len(),
            Err(e) => spec_parse_sys_read(old(parser).toks(), old(parser).pos()) == Err::<
                (crate::ast::SpecAst, int),
                _,
            >(e@),
        },
{
    if let Err(e) = parser.consume(Token::Syscall("read".to_owned())) {
        return Err(e);
    }
    if let Err(e) = parser.consume(Token::ParentOpen) {
        return Err(e);
    }
    let fd = match parse_int_or_identifier(parser) {
        Ok(t) => t,
        Err(e) => {
            return Err(e);
        },
    };
    if let Err(e) = parser.consume(Token::Comma) {
        return Err(e);
    }
    let b = parser.current_token();
    let buffer_ok = match &b {
        Token::Identifier(_) => true,
        _ => false,
    };
    if !buffer_ok {
        return Err(CompileError::Expected(ExpectKind::Buffer, b));
    }
    proof {
        assert(b@ is Identifier);
        assert(spec_cur(parser.toks(), parser.pos()) is Identifier);
    }
    let buffer = match parser.consume(b) {
        Ok(t) => t,
        Err(_) => {
            proof {
                assert(false);
            }
            return Err(CompileError::Expected(ExpectKind::Buffer, Token::EOF));
        },
    };
    if let Err(e) = parser.consume(Token::ParentClose) {
        return Err(e);
    }
    let node = AstNode::Read(fd, buffer);
    proof {
        assert(node@ == crate::ast::SpecAst::Read(fd@, buffer@));
    }
    Ok(node)
}

/// `$exit(code)`: code an int literal or identifier.
pub fn parse_sys_exit(parser: &mut Parser) -> (r: Result<AstNode, CompileError>)
    ensures
        final(parser).toks() == old(parser).toks(),
        match r {
            Ok(node) => spec_parse_sys_exit(old(parser).toks(), old(parser).pos()) == Ok::<
                _,
                crate::errors::SpecCompileError,
            >((node@, final(parser).pos())) && old(parser).pos() < final(parser).pos()
                <= final(parser).toks().len(),
            Err(e) => spec_parse_sys_exit(old(parser).toks(), old(parser).pos()) == Err::<
                (crate::ast::SpecAst, int),
                _,
            >(e@),
        },
{
    if let Err(e) = parser.consume(Token::Syscall("exit".to_owned())) {
        return Err(e);
    }
    if let Err(e) = parser.consume(Token::ParentOpen) {
        return Err(e);
    }
    let code = match parse_int_or_identifier(parser) {
        Ok(t) => t,
        Err(e) => {
            return Err(e);
        },
    };
    if let Err(e) = parser.consume(Token::ParentClose) {
        return Err(e);
    }
    let node = AstNode::Exit(code);
    proof {
        assert(node@ == crate::ast::SpecAst::Exit(code@));
    }
    Ok(node)
}

/// `$open(path, flags, mode)`: path a string literal or identifier,
/// flags and mode int literals or identifiers.
pub fn parse_sys_open(parser: &mut Parser) -> (r: Result<AstNode, CompileError>)
    ensures
        final(parser).toks() == old(parser).toks(),
        match r {
            Ok(node) => spec_parse_sys_open(old(parser).toks(), old(parser).pos()) == Ok::<
                _,
                crate::errors::SpecCompileError,
            >((node@, final(parser).pos())) && old(parser).pos() < final(parser).pos()
                <= final(parser).toks().len(),
            Err(e) => spec_parse_sys_open(old(parser).toks(), old(parser).pos()) == Err::<
                (crate::ast::SpecAst, int),
                _,
            >(e@),
        },
{
    if let Err(e) = parser.consume(Token::Syscall("open".to_owned())) {
        return Err(e);
    }
    if let Err(e) = parser.consume(Token::ParentOpen) {
        return Err(e);
    }
    let p = parser.current_token();
    let path_ok = match &p {
        Token::StrContainer(_) => true,
        Token::Identifier(_) => true,
        _ => false,
    };
    if !path_ok {
        return Err(CompileError::Expected(ExpectKind::StringOrIdentifier, p));
    }
    proof {
        assert(p@ is StrContainer || p@ is Identifier);
        assert(spec_cur(parser.toks(), parser.pos()) is StrContainer || spec_cur(
            parser.toks(),
            parser.pos(),
        ) is Identifier);
    }
    let filename = match parser.consume(p) {
        Ok(t) => t,
        Err(_) => {
            proof {
                assert(false);
            }
            return Err(CompileError::Expected(ExpectKind::StringOrIdentifier, Token::EOF));
        },
    };
    if let Err(e) = parser.consume(Token::Comma) {
        return Err(e);
    }
    let flags = match parse_int_or_identifier(parser) {
        Ok(t) => t,
        Err(e) => {
            return Err(e);
        },
    };
    if let Err(e) = parser.consume(Token::Comma) {
        return Err(e);
    }
    let mode = match parse_int_or_identifier(parser) {
        Ok(t) => t,
        Err(e) => {
            return Err(e);
        },
    };
    if let Err(e) = parser.consume(Token::ParentClose) {
        return Err(e);
    }
    let node = AstNode::Open(filename, flags, mode);
    proof {
        assert(node@ == crate::ast::SpecAst::Open(filename@, flags@, mode@));
    }
    Ok(node)
}

/// `$sysinfo(buffer)`: buffer an identifier.
pub fn parse_sys_sysinfo(parser: &mut Parser) -> (r: Result<AstNode, CompileError>)
    ensures
        final(parser).toks() == old(parser).toks(),
        match r {
            Ok(node) => spec_parse_sys_sysinfo(old(parser).toks(), old(parser).pos()) == Ok::<
                _,
                crate::errors::SpecCompileError,
            >((node@, final(parser).pos())) && old(parser).pos() < final(parser).pos()
                <= final(parser).toks().len(),
            Err(e) => spec_parse_sys_sysinfo(old(parser).toks(), old(parser).pos()) == Err::<
                (crate::ast::SpecAst, int),
                _,
            >(e@),
        },
{
    if let Err(e) = parser.consume(Token::Syscall("sysinfo".to_owned())) {
        return Err(e);
    }
    if let Err(e) = parser.consume(Token::ParentOpen) {
        return Err(e);
    }
    let b = parser.current_token();
    let name = match b {
        Token::Identifier(name) => name,
        other => {
            return Err(CompileError::Expected(ExpectKind::Buffer, other));
        },
    };
    proof {
        assert(spec_cur(parser.toks(), parser.pos()) is Identifier);
    }
    let buffer = match parser.consume(Token::Identifier(name.clone())) {
        Ok(t) => t,
        Err(_) => {
            proof {
                assert(false);
            }
            return Err(CompileError::Expected(ExpectKind::Buffer, Token::EOF));
        },
    };
    if let Err(e) = parser.consume(Token::ParentClose) {
        return Err(e);
    }
    let node = AstNode::Sysinfo(name);
    proof {
        assert(node@ == crate::ast::SpecAst::Sysinfo(name@));
    }
    Ok(node)
}

} // verus!

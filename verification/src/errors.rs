//! The fatal errors of the compilation pipeline. Every pass fails fast:
//! the first error ends the compilation.

use vstd::prelude::*;
use crate::ast::{view_ast, AstNode, SpecAst};
use crate::tokenizer::{SpecToken, Token};

verus! {

/// What a parser expectation was about, when no single token can name it.
#[derive(Debug, Clone, Copy, PartialEq, Eq, Structural)]
pub enum ExpectKind {
    /// A statement had to begin here.
    Statement,
    /// An identifier was required.
    Identifier,
    /// A literal container of the declared type was required.
    Literal,
    /// The declared type admits no literal at all.
    DeclaredType,
    /// An integer literal or an identifier was required.
    IntOrIdentifier,
    /// A string literal or an identifier was required.
    StringOrIdentifier,
    /// A buffer identifier was required.
    Buffer,
    /// A literal value for a declaration initializer was required.
    DeclValue,
    /// A literal value for an assignment was required.
    AssignValue,
    /// `=` for an assignment or `(` for a call was required.
    AssignOrCall,
    /// A type keyword for a parameter was required.
    ParamType,
    /// A string literal inside an inline assembly block was required.
    AsmLine,
}

/// A fatal compilation error.
#[derive(Debug)]
pub enum CompileError {
    /// A file could not be read: the path.
    IoError(String),
    /// A file includes itself, directly or through others: the path.
    CircularInclude(String),
    /// An unclosed `#if`, or a stray `#else`/`#endif`.
    UnmatchedConditional,
    /// A user include that no search path resolves: the name and the
    /// candidate paths that were probed, in probe order.
    UnresolvedInclude(String, Vec<String>),
    /// An integer literal outside the 32-bit signed range.
    IntegerOutOfRange,
    /// The parser required one exact token: expected, found.
    UnexpectedToken(Token, Token),
    /// The parser required a token of some shape: what for, and what was found.
    Expected(ExpectKind, Token),
    /// A call of a user function, which the language does not yet define.
    FunctionCallUnsupported(String),
    /// A system call name outside the fixed set.
    UnknownSyscall(String),
    /// An architecture the generator has no back end for.
    UnknownArchitecture(String),
    /// An AST node the generator has no lowering for.
    UnsupportedConstruct(Box<AstNode>),
}

/// The mathematical form of a compilation error.
pub enum SpecCompileError {
    IoError(Seq<char>),
    CircularInclude(Seq<char>),
    UnmatchedConditional,
    UnresolvedInclude(Seq<char>, Seq<Seq<char>>),
    IntegerOutOfRange,
    UnexpectedToken(SpecToken, SpecToken),
    Expected(ExpectKind, SpecToken),
    FunctionCallUnsupported(Seq<char>),
    UnknownSyscall(Seq<char>),
    UnknownArchitecture(Seq<char>),
    UnsupportedConstruct(SpecAst),
}

impl View for CompileError {
    type V = SpecCompileError;

    open spec fn view(&self) -> SpecCompileError {
        match self {
            CompileError::IoError(p) => SpecCompileError::IoError(p@),
            CompileError::CircularInclude(p) => SpecCompileError::CircularInclude(p@),
            CompileError::UnmatchedConditional => SpecCompileError::UnmatchedConditional,
            CompileError::UnresolvedInclude(n, c) => SpecCompileError::UnresolvedInclude(
                n@,
                Seq::new(c@.len(), |i: int| c@[i]@),
            ),
            CompileError::IntegerOutOfRange => SpecCompileError::IntegerOutOfRange,
            CompileError::UnexpectedToken(e, f) => SpecCompileError::UnexpectedToken(e@, f@),
            CompileError::Expected(k, f) => SpecCompileError::Expected(*k, f@),
            CompileError::FunctionCallUnsupported(n) => SpecCompileError::FunctionCallUnsupported(
                n@,
            ),
            CompileError::UnknownSyscall(n) => SpecCompileError::UnknownSyscall(n@),
            CompileError::UnknownArchitecture(n) => SpecCompileError::UnknownArchitecture(n@),
            CompileError::UnsupportedConstruct(n) => SpecCompileError::UnsupportedConstruct(
                view_ast(*(*n)),
            ),
        }
    }
}

} // verus!

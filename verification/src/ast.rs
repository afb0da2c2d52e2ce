//! The abstract syntax tree produced by the parser and consumed by the
//! code generator, together with its mathematical view.

use vstd::prelude::*;
use crate::tokenizer::{SpecToken, Token};

verus! {

broadcast use vstd::seq::axiom_seq_index_decreases, vstd::seq::axiom_seq_subrange_decreases;

/// A node of the abstract syntax tree.
#[derive(Debug)]
pub enum AstNode {
    /// The whole translation unit: a sequence of statements.
    Program(Vec<AstNode>),
    /// A function parameter: name and type.
    Identifier(String, Box<AstNode>),
    /// Function definition: name, parameters, body.
    FunctionDefinition(String, Vec<AstNode>, Vec<AstNode>),
    /// Variable with an initializer: name, initializer, type.
    VariableDeclaration(String, Box<AstNode>, Box<AstNode>),
    /// Variable without an initializer, reserving storage: name, type.
    VariableBufferDeclaration(String, Box<AstNode>),
    /// Assignment of a literal to a variable: name, value.
    VariableAssignment(String, Box<AstNode>),
    /// Verbatim assembly lines.
    InlineAsm(Vec<String>),
    /// A type: base type token and mutability.
    Type(Token, bool),
    /// A system call: name and the specialized argument node.
    Syscall(String, Box<AstNode>),
    /// `$write(fd, data)`: fd is an int literal or identifier token,
    /// data a string literal or identifier token.
    Write(Token, Token),
    /// `$read(fd, buffer)`.
    Read(Token, Token),
    /// `$open(path, flags, mode)`.
    Open(Token, Token, Token),
    /// `$exit(code)`.
    Exit(Token),
    /// `$sysinfo(buffer)`: buffer identifier name.
    Sysinfo(String),
    // internal value containers
    IBool(bool),
    IChar(char),
    IStr(String),
    IInt8(i8),
    IInt16(i16),
    IInt32(i32),
}

/// The mathematical form of an AST node.
pub enum SpecAst {
    Program(Seq<SpecAst>),
    Identifier(Seq<char>, Box<SpecAst>),
    FunctionDefinition(Seq<char>, Seq<SpecAst>, Seq<SpecAst>),
    VariableDeclaration(Seq<char>, Box<SpecAst>, Box<SpecAst>),
    VariableBufferDeclaration(Seq<char>, Box<SpecAst>),
    VariableAssignment(Seq<char>, Box<SpecAst>),
    InlineAsm(Seq<Seq<char>>),
    Type(SpecToken, bool),
    Syscall(Seq<char>, Box<SpecAst>),
    Write(SpecToken, SpecToken),
    Read(SpecToken, SpecToken),
    Open(SpecToken, SpecToken, SpecToken),
    Exit(SpecToken),
    Sysinfo(Seq<char>),
    IBool(bool),
    IChar(char),
    IStr(Seq<char>),
    IInt8(i8),
    IInt16(i16),
    IInt32(i32),
}

/// The views of a sequence of strings, in place.
pub open spec fn view_strings(s: Seq<String>) -> Seq<Seq<char>> {
    Seq::new(s.len(), |i: int| s[i]@)
}

/// The view of a sequence of nodes: each node viewed in place.
pub open spec fn view_asts(s: Seq<AstNode>) -> Seq<SpecAst>
    decreases s,
{
    if s.len() == 0 {
        Seq::empty()
    } else {
        seq![view_ast(s[0])] + view_asts(s.drop_first())
    }
}

/// Viewing a sequence of nodes views each node in place.
pub proof fn lemma_view_asts_index(s: Seq<AstNode>)
    ensures
        view_asts(s).len() == s.len(),
        forall|i: int| 0 <= i < s.len() ==> view_asts(s)[i] == view_ast(s[i]),
    decreases s.len(),
{
    if s.len() > 0 {
        lemma_view_asts_index(s.drop_first());
    }
}

/// Appending a node views as appending its view.
pub proof fn lemma_view_asts_push(s: Seq<AstNode>, n: AstNode)
    ensures
        view_asts(s.push(n)) == view_asts(s).push(view_ast(n)),
{
    lemma_view_asts_index(s.push(n));
    lemma_view_asts_index(s);
    assert(view_asts(s.push(n)) =~= view_asts(s).push(view_ast(n)));
}

/// The view of one node.
pub open spec fn view_ast(n: AstNode) -> SpecAst
    decreases n,
{
    match n {
        AstNode::Program(stmts) => SpecAst::Program(view_asts(stmts@)),
        AstNode::Identifier(name, ty) => SpecAst::Identifier(name@, Box::new(view_ast(*ty))),
        AstNode::FunctionDefinition(name, params, body) => SpecAst::FunctionDefinition(
            name@,
            view_asts(params@),
            view_asts(body@),
        ),
        AstNode::VariableDeclaration(name, value, ty) => SpecAst::VariableDeclaration(
            name@,
            Box::new(view_ast(*value)),
            Box::new(view_ast(*ty)),
        ),
        AstNode::VariableBufferDeclaration(name, ty) => SpecAst::VariableBufferDeclaration(
            name@,
            Box::new(view_ast(*ty)),
        ),
        AstNode::VariableAssignment(name, value) => SpecAst::VariableAssignment(
            name@,
            Box::new(view_ast(*value)),
        ),
        AstNode::InlineAsm(lines) => SpecAst::InlineAsm(view_strings(lines@)),
        AstNode::Type(t, m) => SpecAst::Type(t@, m),
        AstNode::Syscall(name, inner) => SpecAst::Syscall(name@, Box::new(view_ast(*inner))),
        AstNode::Write(fd, data) => SpecAst::Write(fd@, data@),
        AstNode::Read(fd, buffer) => SpecAst::Read(fd@, buffer@),
        AstNode::Open(path, flags, mode) => SpecAst::Open(path@, flags@, mode@),
        AstNode::Exit(code) => SpecAst::Exit(code@),
        AstNode::Sysinfo(buffer) => SpecAst::Sysinfo(buffer@),
        AstNode::IBool(b) => SpecAst::IBool(b),
        AstNode::IChar(c) => SpecAst::IChar(c),
        AstNode::IStr(s) => SpecAst::IStr(s@),
        AstNode::IInt8(v) => SpecAst::IInt8(v),
        AstNode::IInt16(v) => SpecAst::IInt16(v),
        AstNode::IInt32(v) => SpecAst::IInt32(v),
    }
}

/// A node's view is the like-named variant of `SpecAst`.
pub broadcast proof fn lemma_ast_view_variants(n: AstNode)
    ensures
        #![trigger view_ast(n)]
        (n is Program <==> view_ast(n) is Program),
        (n is Identifier <==> view_ast(n) is Identifier),
        (n is FunctionDefinition <==> view_ast(n) is FunctionDefinition),
        (n is VariableDeclaration <==> view_ast(n) is VariableDeclaration),
        (n is VariableBufferDeclaration <==> view_ast(n) is VariableBufferDeclaration),
        (n is VariableAssignment <==> view_ast(n) is VariableAssignment),
        (n is InlineAsm <==> view_ast(n) is InlineAsm),
        (n is Type <==> view_ast(n) is Type),
        (n is Syscall <==> view_ast(n) is Syscall),
        (n is Write <==> view_ast(n) is Write),
        (n is Read <==> view_ast(n) is Read),
        (n is Open <==> view_ast(n) is Open),
        (n is Exit <==> view_ast(n) is Exit),
        (n is Sysinfo <==> view_ast(n) is Sysinfo),
        (n is IBool <==> view_ast(n) is IBool),
        (n is IChar <==> view_ast(n) is IChar),
        (n is IStr <==> view_ast(n) is IStr),
        (n is IInt8 <==> view_ast(n) is IInt8),
        (n is IInt16 <==> view_ast(n) is IInt16),
        (n is IInt32 <==> view_ast(n) is IInt32),
{
}

impl View for AstNode {
    type V = SpecAst;

    open spec fn view(&self) -> SpecAst {
        view_ast(*self)
    }
}

impl AstNode {
    /// A copy of the node, equal to the original in every contract.
    pub fn duplicate(&self) -> (r: AstNode)
        ensures
            r@ == self@,
        decreases *self,
    {
        match self {
            AstNode::Program(stmts) => AstNode::Program(duplicate_nodes(stmts)),
            AstNode::Identifier(name, ty) => AstNode::Identifier(
                name.clone(),
                Box::new(ty.duplicate()),
            ),
            AstNode::FunctionDefinition(name, params, body) => {
                let r = AstNode::FunctionDefinition(
                    name.clone(),
                    duplicate_nodes(params),
                    duplicate_nodes(body),
                );
                r
            },
            AstNode::VariableDeclaration(name, value, ty) => AstNode::VariableDeclaration(
                name.clone(),
                Box::new(value.duplicate()),
                Box::new(ty.duplicate()),
            ),
            AstNode::VariableBufferDeclaration(name, ty) => AstNode::VariableBufferDeclaration(
                name.clone(),
                Box::new(ty.duplicate()),
            ),
            AstNode::VariableAssignment(name, value) => AstNode::VariableAssignment(
                name.clone(),
                Box::new(value.duplicate()),
            ),
            AstNode::InlineAsm(lines) => {
                let mut out: Vec<String> = Vec::new();
                let mut j: usize = 0;
                while j < lines.len()
                    invariant
                        j <= lines.len(),
                        out@.len() == j as int,
                        forall|i: int| 0 <= i < j as int ==> out@[i]@ == lines@[i]@,
                    decreases lines.len() - j,
                {
                    out.push(lines[j].clone());
                    j += 1;
                }
                assert(Seq::new(out@.len(), |i: int| out@[i]@) =~= Seq::new(
                    lines@.len(),
                    |i: int| lines@[i]@,
                ));
                AstNode::InlineAsm(out)
            },
            AstNode::Type(t, m) => AstNode::Type(t.duplicate(), *m),
            AstNode::Syscall(name, inner) => AstNode::Syscall(
                name.clone(),
                Box::new(inner.duplicate()),
            ),
            AstNode::Write(fd, data) => AstNode::Write(fd.duplicate(), data.duplicate()),
            AstNode::Read(fd, buffer) => AstNode::Read(fd.duplicate(), buffer.duplicate()),
            AstNode::Open(path, flags, mode) => AstNode::Open(
                path.duplicate(),
                flags.duplicate(),
                mode.duplicate(),
            ),
            AstNode::Exit(code) => AstNode::Exit(code.duplicate()),
            AstNode::Sysinfo(buffer) => AstNode::Sysinfo(buffer.clone()),
            AstNode::IBool(b) => AstNode::IBool(*b),
            AstNode::IChar(c) => AstNode::IChar(*c),
            AstNode::IStr(s) => AstNode::IStr(s.clone()),
            AstNode::IInt8(v) => AstNode::IInt8(*v),
            AstNode::IInt16(v) => AstNode::IInt16(*v),
            AstNode::IInt32(v) => AstNode::IInt32(*v),
        }
    }
}

/// A copy of a vector of nodes, elementwise equal to the original.
pub fn duplicate_nodes(v: &Vec<AstNode>) -> (r: Vec<AstNode>)
    ensures
        view_asts(r@) == view_asts(v@),
    decreases v@,
{
    let mut out: Vec<AstNode> = Vec::new();
    let mut j: usize = 0;
    while j < v.len()
        invariant
            j <= v.len(),
            out@.len() == j as int,
            forall|i: int| 0 <= i < j as int ==> view_ast(out@[i]) == view_ast(v@[i]),
        decreases v.len() - j,
    {
        let d = v[j].duplicate();
        out.push(d);
        j += 1;
    }
    proof {
        lemma_view_asts_index(out@);
        lemma_view_asts_index(v@);
        assert(view_asts(out@) =~= view_asts(v@));
    }
    out
}

} // verus!

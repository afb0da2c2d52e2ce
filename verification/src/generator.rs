//! The tree-walking code generator: AST to the three GAS sections.
//!
//! `spec_gen` says exactly which lines each node appends, as a function
//! of the node, the enclosing function's name, and the supply of
//! synthetic labels drawn for pooled string constants; the executable
//! generator is proved to append exactly those lines, with the labels
//! it actually drew as the supply.

use vstd::prelude::*;
use vstd::string::*;
use crate::arm32::{
    spec_ldr_label, spec_load_ret_head, spec_load_ret_store, spec_mov_imm, spec_store_ret_entry,
    spec_syscall_1arg, spec_syscall_2args, spec_syscall_3args, store_syscall_return_value,
    syscall_1arg, syscall_2args, syscall_3args,
};
use crate::ast::{view_ast, view_asts, view_strings, AstNode, SpecAst};
use crate::errors::{CompileError, SpecCompileError};
use crate::parser::is_type_keyword;
use crate::section::{
    lemma_sec_add_assoc, lemma_sec_add_empty, sec_add, sec_bss, sec_empty, sec_rodata, sec_text,
    spec_asciz_line, spec_lcomm_line, spec_len_line, spec_word_line, SectionWriter, SpecSections,
};
use crate::strutil::{spec_dec_int, spec_dec_nat};
use crate::syscall_mapper::{spec_arch_name, Architecture};
use crate::tokenizer::{SpecToken, Token};
use crate::utils::{is_fresh_name, spec_type_size};

verus! {

broadcast use vstd::seq::axiom_seq_index_decreases, crate::tokenizer::lemma_token_view_variants, crate::ast::lemma_ast_view_variants;

/// The synthetic label at position `k` of the supply; past the supply,
/// the empty name. The generator never reads past the supply.
pub open spec fn name_at(names: Seq<Seq<char>>, k: int) -> Seq<char> {
    if 0 <= k < names.len() {
        names[k]
    } else {
        Seq::empty()
    }
}

/// The label of a user symbol inside a function: `function_name`.
pub open spec fn spec_mangle(fun: Seq<char>, name: Seq<char>) -> Seq<char> {
    fun + "_"@ + name
}

/// The machine-word value a numeric literal container is stored as:
/// booleans as 0/1, characters as their code point, integers
/// sign-extended to the machine word.
pub open spec fn container_num_val(v: SpecAst) -> Option<nat> {
    match v {
        SpecAst::IBool(b) => Some(
            if b {
                1nat
            } else {
                0nat
            },
        ),
        SpecAst::IChar(c) => Some((c as usize) as nat),
        SpecAst::IInt8(n) => Some((n as usize) as nat),
        SpecAst::IInt16(n) => Some((n as usize) as nat),
        SpecAst::IInt32(n) => Some((n as usize) as nat),
        _ => None,
    }
}

/// The value emitted in a `.word` directive: the stored machine word
/// reinterpreted as a 32-bit signed integer.
pub open spec fn spec_word_val(v: nat) -> int {
    ((v as usize) as i32) as int
}

/// The text entries that materialize a value and store it under a label.
pub open spec fn spec_store_text(label: Seq<char>, val: nat) -> Seq<Seq<char>> {
    seq![spec_ldr_label("r1"@, label), spec_mov_imm("r0"@, val), "str r0, [r1]"@]
}

/// The lines a numeric variable declaration emits: a mutable one is
/// reserved in `.bss` and initialized in `.text`; an immutable one is a
/// `.word` constant in `.rodata`.
pub open spec fn spec_store_num(
    label: Seq<char>,
    val: nat,
    t: SpecToken,
    mutable: bool,
) -> Result<SpecSections, SpecCompileError> {
    if mutable {
        if is_type_keyword(t) {
            Ok(
                SpecSections {
                    rodata: Seq::empty(),
                    bss: seq![spec_lcomm_line(label, spec_type_size(t))],
                    text: spec_store_text(label, val),
                },
            )
        } else {
            Err(SpecCompileError::UnsupportedConstruct(SpecAst::Type(t, mutable)))
        }
    } else {
        Ok(sec_rodata(seq![spec_word_line(label, spec_word_val(val))]))
    }
}

/// The argument text of an int-literal-or-identifier syscall argument:
/// the literal in decimal, or the mangled label.
pub open spec fn spec_arg_str(t: SpecToken, fun: Seq<char>) -> Option<Seq<char>> {
    match t {
        SpecToken::Int8Container(n) => Some(spec_dec_int(n as int)),
        SpecToken::Int16Container(n) => Some(spec_dec_int(n as int)),
        SpecToken::Int32Container(n) => Some(spec_dec_int(n as int)),
        SpecToken::Identifier(id) => Some(spec_mangle(fun, id)),
        _ => None,
    }
}

/// The text entry of a `write` whose file descriptor is a variable: the
/// descriptor is loaded and dereferenced before the buffer registers.
pub open spec fn spec_write_deref_entry(num: nat, flabel: Seq<char>, var: Seq<char>) -> Seq<char> {
    "\tmov r7, #"@ + spec_dec_nat(num) + "\n\tldr r0, ="@ + flabel + "\n\tldr r0, [r0]\n\tldr r1, ="@
        + var + "\n\tldr r2, ="@ + var + "_len\n\tsvc #0\n"@
}

/// The lines one syscall node emits, and how many synthetic labels it
/// consumes. Every syscall but `exit` stores its result into the
/// `syscall_ret_val` buffer immediately after the call.
#[verifier::opaque]
pub open spec fn spec_gen_syscall(
    arch: Architecture,
    nm: Seq<char>,
    inner: SpecAst,
    fun: Seq<char>,
    names: Seq<Seq<char>>,
    k: int,
) -> Result<(SpecSections, int), SpecCompileError> {
    if nm == "write"@ {
        match inner {
            SpecAst::Write(fd, data) => {
                if !(arch is Arm32) {
                    Err(SpecCompileError::UnknownArchitecture(spec_arch_name(arch)))
                } else {
                    match data {
                        SpecToken::StrContainer(s) => {
                            let var = name_at(names, k);
                            let rod = seq![spec_asciz_line(var, s), spec_len_line(var)];
                            match fd {
                                SpecToken::Int8Container(n) => Ok(
                                    (
                                        SpecSections {
                                            rodata: rod,
                                            bss: Seq::empty(),
                                            text: seq![
                                                spec_syscall_3args(4, spec_dec_int(n as int), var, var + "_len"@),
                                                spec_store_ret_entry(),
                                            ],
                                        },
                                        k + 1,
                                    ),
                                ),
                                SpecToken::Int16Container(n) => Ok(
                                    (
                                        SpecSections {
                                            rodata: rod,
                                            bss: Seq::empty(),
                                            text: seq![
                                                spec_syscall_3args(4, spec_dec_int(n as int), var, var + "_len"@),
                                                spec_store_ret_entry(),
                                            ],
                                        },
                                        k + 1,
                                    ),
                                ),
                                SpecToken::Int32Container(n) => Ok(
                                    (
                                        SpecSections {
                                            rodata: rod,
                                            bss: Seq::empty(),
                                            text: seq![
                                                spec_syscall_3args(4, spec_dec_int(n as int), var, var + "_len"@),
                                                spec_store_ret_entry(),
                                            ],
                                        },
                                        k + 1,
                                    ),
                                ),
                                SpecToken::Identifier(id) => Ok(
                                    (
                                        SpecSections {
                                            rodata: rod,
                                            bss: Seq::empty(),
                                            text: seq![
                                                spec_write_deref_entry(4, spec_mangle(fun, id), var),
                                                spec_store_ret_entry(),
                                            ],
                                        },
                                        k + 1,
                                    ),
                                ),
                                _ => Err(SpecCompileError::UnsupportedConstruct(inner)),
                            }
                        },
                        SpecToken::Identifier(id) => {
                            let label = spec_mangle(fun, id);
                            match fd {
                                SpecToken::Int8Container(n) => Ok(
                                    (
                                        sec_text(
                                            seq![
                                                spec_syscall_3args(4, spec_dec_int(n as int), label, label + "_len"@),
                                                spec_store_ret_entry(),
                                            ],
                                        ),
                                        k,
                                    ),
                                ),
                                SpecToken::Int16Container(n) => Ok(
                                    (
                                        sec_text(
                                            seq![
                                                spec_syscall_3args(4, spec_dec_int(n as int), label, label + "_len"@),
                                                spec_store_ret_entry(),
                                            ],
                                        ),
                                        k,
                                    ),
                                ),
                                SpecToken::Int32Container(n) => Ok(
                                    (
                                        sec_text(
                                            seq![
                                                spec_syscall_3args(4, spec_dec_int(n as int), label, label + "_len"@),
                                                spec_store_ret_entry(),
                                            ],
                                        ),
                                        k,
                                    ),
                                ),
                                SpecToken::Identifier(fid) => Ok(
                                    (
                                        sec_text(
                                            seq![
                                                spec_write_deref_entry(4, spec_mangle(fun, fid), label),
                                                spec_store_ret_entry(),
                                            ],
                                        ),
                                        k,
                                    ),
                                ),
                                _ => Err(SpecCompileError::UnsupportedConstruct(inner)),
                            }
                        },
                        _ => Err(SpecCompileError::UnsupportedConstruct(inner)),
                    }
                }
            },
            _ => Err(SpecCompileError::UnsupportedConstruct(inner)),
        }
    } else if nm == "read"@ {
        match inner {
            SpecAst::Read(fd, buffer) => {
                if !(arch is Arm32) {
                    Err(SpecCompileError::UnknownArchitecture(spec_arch_name(arch)))
                } else {
                    match buffer {
                        SpecToken::Identifier(b) => {
                            let label = spec_mangle(fun, b);
                            match spec_arg_str(fd, fun) {
                                Some(f) => Ok(
                                    (
                                        sec_text(
                                            seq![spec_syscall_2args(3, f, label), spec_store_ret_entry()],
                                        ),
                                        k,
                                    ),
                                ),
                                None => Err(SpecCompileError::UnsupportedConstruct(inner)),
                            }
                        },
                        _ => Err(SpecCompileError::UnsupportedConstruct(inner)),
                    }
                }
            },
            _ => Err(SpecCompileError::UnsupportedConstruct(inner)),
        }
    } else if nm == "exit"@ {
        match inner {
            SpecAst::Exit(code) => {
                if !(arch is Arm32) {
                    Err(SpecCompileError::UnknownArchitecture(spec_arch_name(arch)))
                } else {
                    match spec_arg_str(code, fun) {
                        Some(c) => Ok((sec_text(seq![spec_syscall_1arg(1, c)]), k)),
                        None => Err(SpecCompileError::UnsupportedConstruct(inner)),
                    }
                }
            },
            _ => Err(SpecCompileError::UnsupportedConstruct(inner)),
        }
    } else if nm == "open"@ {
        match inner {
            SpecAst::Open(path, flags, mode) => {
                if !(arch is Arm32) {
                    Err(SpecCompileError::UnknownArchitecture(spec_arch_name(arch)))
                } else {
                    match (spec_arg_str(flags, fun), spec_arg_str(mode, fun)) {
                        (Some(f), Some(m)) => match path {
                            SpecToken::StrContainer(s) => {
                                let var = name_at(names, k);
                                Ok(
                                    (
                                        SpecSections {
                                            rodata: seq![spec_asciz_line(var, s), spec_len_line(var)],
                                            bss: Seq::empty(),
                                            text: seq![
                                                spec_syscall_3args(5, var, f, m),
                                                spec_store_ret_entry(),
                                            ],
                                        },
                                        k + 1,
                                    ),
                                )
                            },
                            SpecToken::Identifier(p) => Ok(
                                (
                                    sec_text(
                                        seq![
                                            spec_syscall_3args(5, spec_mangle(fun, p), f, m),
                                            spec_store_ret_entry(),
                                        ],
                                    ),
                                    k,
                                ),
                            ),
                            _ => Err(SpecCompileError::UnsupportedConstruct(inner)),
                        },
                        _ => Err(SpecCompileError::UnsupportedConstruct(inner)),
                    }
                }
            },
            _ => Err(SpecCompileError::UnsupportedConstruct(inner)),
        }
    } else if nm == "sysinfo"@ {
        match inner {
            SpecAst::Sysinfo(b) => {
                if !(arch is Arm32) {
                    Err(SpecCompileError::UnknownArchitecture(spec_arch_name(arch)))
                } else {
                    Ok(
                        (
                            sec_text(
                                seq![
                                    spec_syscall_1arg(143, spec_mangle(fun, b)),
                                    spec_store_ret_entry(),
                                ],
                            ),
                            k,
                        ),
                    )
                }
            },
            _ => Err(SpecCompileError::UnsupportedConstruct(inner)),
        }
    } else {
        Err(SpecCompileError::UnknownSyscall(nm))
    }
}

/// Each line on its own tab-indented entry.
pub open spec fn spec_indent_all(lines: Seq<Seq<char>>) -> Seq<Seq<char>> {
    Seq::new(lines.len(), |i: int| "\t"@ + lines[i])
}

/// The lines one AST node emits: the sections it appends, the current
/// function name after it, and the synthetic labels consumed.
pub open spec fn spec_gen(
    node: SpecAst,
    fun: Seq<char>,
    names: Seq<Seq<char>>,
    k: int,
    arch: Architecture,
) -> Result<(SpecSections, Seq<char>, int), SpecCompileError>
    decreases node,
{
    match node {
        SpecAst::Program(stmts) => spec_gen_list(stmts, 0, stmts.len() as int, fun, names, k, arch),
        SpecAst::FunctionDefinition(name, params, body) => {
            let fun2 = if name == "main"@ {
                "_start"@
            } else {
                name
            };
            let head = sec_text(seq![fun2 + ":"@]);
            match spec_gen_list(params, 0, params.len() as int, fun2, names, k, arch) {
                Err(e) => Err(e),
                Ok((d1, f3, k1)) => match spec_gen_list(
                    body,
                    0,
                    body.len() as int,
                    f3,
                    names,
                    k1,
                    arch,
                ) {
                    Err(e) => Err(e),
                    Ok((d2, f4, k2)) => Ok((sec_add(head, sec_add(d1, d2)), f4, k2)),
                },
            }
        },
        SpecAst::Identifier(name, ty) => {
            match *ty {
                SpecAst::Type(t, _) => {
                    if is_type_keyword(t) {
                        Ok(
                            (
                                sec_bss(
                                    seq![spec_lcomm_line(spec_mangle(fun, name), spec_type_size(t))],
                                ),
                                fun,
                                k,
                            ),
                        )
                    } else {
                        Err(SpecCompileError::UnsupportedConstruct(node))
                    }
                },
                _ => Err(SpecCompileError::UnsupportedConstruct(node)),
            }
        },
        SpecAst::VariableDeclaration(name, value, ty) => {
            let label = spec_mangle(fun, name);
            match *ty {
                SpecAst::Type(t, m) => {
                    match container_num_val(*value) {
                        Some(v) => match spec_store_num(label, v, t, m) {
                            Err(e) => Err(e),
                            Ok(d) => Ok((d, fun, k)),
                        },
                        None => match *value {
                            SpecAst::IStr(s) => {
                                if m {
                                    Err(SpecCompileError::UnsupportedConstruct(*value))
                                } else {
                                    Ok(
                                        (
                                            sec_rodata(
                                                seq![spec_asciz_line(label, s), spec_len_line(label)],
                                            ),
                                            fun,
                                            k,
                                        ),
                                    )
                                }
                            },
                            SpecAst::Syscall(nm2, inner2) => {
                                match spec_gen_syscall(arch, nm2, *inner2, fun, names, k) {
                                    Err(e) => Err(e),
                                    Ok((d, k2)) => Ok(
                                        (
                                            sec_add(
                                                sec_bss(seq![spec_lcomm_line(label, 4)]),
                                                sec_add(
                                                    d,
                                                    sec_text(
                                                        seq![
                                                            spec_load_ret_head(label),
                                                            spec_load_ret_store(label),
                                                        ],
                                                    ),
                                                ),
                                            ),
                                            fun,
                                            k2,
                                        ),
                                    ),
                                }
                            },
                            _ => Err(SpecCompileError::UnsupportedConstruct(*value)),
                        },
                    }
                },
                _ => Err(SpecCompileError::UnsupportedConstruct(*ty)),
            }
        },
        SpecAst::VariableBufferDeclaration(name, ty) => {
            match *ty {
                SpecAst::Type(t, m) => {
                    if !m {
                        Err(SpecCompileError::UnsupportedConstruct(node))
                    } else if is_type_keyword(t) {
                        Ok(
                            (
                                sec_bss(
                                    seq![spec_lcomm_line(spec_mangle(fun, name), spec_type_size(t))],
                                ),
                                fun,
                                k,
                            ),
                        )
                    } else {
                        Err(SpecCompileError::UnsupportedConstruct(SpecAst::Type(t, m)))
                    }
                },
                _ => Err(SpecCompileError::UnsupportedConstruct(*ty)),
            }
        },
        SpecAst::VariableAssignment(name, value) => {
            match container_num_val(*value) {
                Some(v) => Ok(
                    (sec_text(spec_store_text(spec_mangle(fun, name), v)), fun, k),
                ),
                None => Err(SpecCompileError::UnsupportedConstruct(*value)),
            }
        },
        SpecAst::InlineAsm(lines) => Ok(
            (
                sec_text(
                    seq!["\t@ ===Inline Assembly==="@] + spec_indent_all(lines)
                        + seq!["\t@ =====================\n"@],
                ),
                fun,
                k,
            ),
        ),
        SpecAst::Syscall(nm, inner) => {
            match spec_gen_syscall(arch, nm, *inner, fun, names, k) {
                Err(e) => Err(e),
                Ok((d, k2)) => Ok((d, fun, k2)),
            }
        },
        _ => Err(SpecCompileError::UnsupportedConstruct(node)),
    }
}

/// The lines the nodes in `[i, j)` emit, in order, threading the current
/// function name and the label supply.
pub open spec fn spec_gen_list(
    nodes: Seq<SpecAst>,
    i: int,
    j: int,
    fun: Seq<char>,
    names: Seq<Seq<char>>,
    k: int,
    arch: Architecture,
) -> Result<(SpecSections, Seq<char>, int), SpecCompileError>
    decreases nodes, j - i,
{
    if i < 0 || i >= j || j > nodes.len() {
        Ok((sec_empty(), fun, k))
    } else {
        match spec_gen(nodes[i], fun, names, k, arch) {
            Err(e) => Err(e),
            Ok((d, f2, k2)) => match spec_gen_list(nodes, i + 1, j, f2, names, k2, arch) {
                Err(e) => Err(e),
                Ok((d2, f3, k3)) => Ok((sec_add(d, d2), f3, k3)),
            },
        }
    }
}

/// The first sequence is an initial segment of the second.
pub open spec fn is_name_prefix(a: Seq<Seq<char>>, b: Seq<Seq<char>>) -> bool {
    a.len() <= b.len() && b.subrange(0, a.len() as int) == a
}

/// A syscall consumes at most one synthetic label.
proof fn lemma_gen_syscall_mono(
    arch: Architecture,
    nm: Seq<char>,
    inner: SpecAst,
    fun: Seq<char>,
    names: Seq<Seq<char>>,
    k: int,
)
    ensures
        spec_gen_syscall(arch, nm, inner, fun, names, k) matches Ok(t) ==> k <= t.1 <= k + 1,
{
    reveal(spec_gen_syscall);
}

/// A node never gives back synthetic labels.
proof fn lemma_gen_mono(
    node: SpecAst,
    fun: Seq<char>,
    names: Seq<Seq<char>>,
    k: int,
    arch: Architecture,
)
    ensures
        spec_gen(node, fun, names, k, arch) matches Ok(t) ==> k <= t.2,
    decreases node,
{
    match node {
        SpecAst::Program(stmts) => {
            lemma_gen_list_mono(stmts, 0, stmts.len() as int, fun, names, k, arch);
        },
        SpecAst::FunctionDefinition(name, params, body) => {
            let fun2 = if name == "main"@ {
                "_start"@
            } else {
                name
            };
            lemma_gen_list_mono(params, 0, params.len() as int, fun2, names, k, arch);
            match spec_gen_list(params, 0, params.len() as int, fun2, names, k, arch) {
                Ok((d1, f3, k1)) => {
                    lemma_gen_list_mono(body, 0, body.len() as int, f3, names, k1, arch);
                },
                Err(_) => {},
            }
        },
        SpecAst::VariableDeclaration(name, value, ty) => {
            match *value {
                SpecAst::Syscall(nm2, inner2) => {
                    lemma_gen_syscall_mono(arch, nm2, *inner2, fun, names, k);
                },
                _ => {},
            }
        },
        SpecAst::Syscall(nm, inner) => {
            lemma_gen_syscall_mono(arch, nm, *inner, fun, names, k);
        },
        _ => {},
    }
}

/// Nodes in a range never give back synthetic labels.
proof fn lemma_gen_list_mono(
    nodes: Seq<SpecAst>,
    i: int,
    j: int,
    fun: Seq<char>,
    names: Seq<Seq<char>>,
    k: int,
    arch: Architecture,
)
    ensures
        spec_gen_list(nodes, i, j, fun, names, k, arch) matches Ok(t) ==> k <= t.2,
    decreases nodes, j - i,
{
    if !(i < 0 || i >= j || j > nodes.len()) {
        lemma_gen_mono(nodes[i], fun, names, k, arch);
        match spec_gen(nodes[i], fun, names, k, arch) {
            Ok((d, f2, k2)) => {
                lemma_gen_list_mono(nodes, i + 1, j, f2, names, k2, arch);
            },
            Err(_) => {},
        }
    }
}

/// Labels beyond those a syscall consumes do not change what it emits.
proof fn lemma_gen_syscall_frame(
    arch: Architecture,
    nm: Seq<char>,
    inner: SpecAst,
    fun: Seq<char>,
    names1: Seq<Seq<char>>,
    names2: Seq<Seq<char>>,
    k: int,
)
    requires
        is_name_prefix(names1, names2),
        spec_gen_syscall(arch, nm, inner, fun, names1, k) matches Ok(t) && t.1 <= names1.len(),
    ensures
        spec_gen_syscall(arch, nm, inner, fun, names2, k) == spec_gen_syscall(
            arch,
            nm,
            inner,
            fun,
            names1,
            k,
        ),
{
    reveal(spec_gen_syscall);
    lemma_gen_syscall_mono(arch, nm, inner, fun, names1, k);
    if 0 <= k < names1.len() {
        assert(names2.subrange(0, names1.len() as int)[k] == names2[k]);
        assert(name_at(names2, k) == name_at(names1, k));
    }
}

/// Labels beyond those a node consumes do not change what it emits.
proof fn lemma_gen_frame(
    node: SpecAst,
    fun: Seq<char>,
    names1: Seq<Seq<char>>,
    names2: Seq<Seq<char>>,
    k: int,
    arch: Architecture,
)
    requires
        is_name_prefix(names1, names2),
        spec_gen(node, fun, names1, k, arch) matches Ok(t) && t.2 <= names1.len(),
    ensures
        spec_gen(node, fun, names2, k, arch) == spec_gen(node, fun, names1, k, arch),
    decreases node,
{
    match node {
        SpecAst::Program(stmts) => {
            lemma_gen_list_frame(stmts, 0, stmts.len() as int, fun, names1, names2, k, arch);
        },
        SpecAst::FunctionDefinition(name, params, body) => {
            let fun2 = if name == "main"@ {
                "_start"@
            } else {
                name
            };
            match spec_gen_list(params, 0, params.len() as int, fun2, names1, k, arch) {
                Ok((d1, f3, k1)) => {
                    match spec_gen_list(body, 0, body.len() as int, f3, names1, k1, arch) {
                        Ok((d2, f4, k2)) => {
                            lemma_gen_list_mono(body, 0, body.len() as int, f3, names1, k1, arch);
                            lemma_gen_list_frame(
                                params,
                                0,
                                params.len() as int,
                                fun2,
                                names1,
                                names2,
                                k,
                                arch,
                            );
                            lemma_gen_list_frame(
                                body,
                                0,
                                body.len() as int,
                                f3,
                                names1,
                                names2,
                                k1,
                                arch,
                            );
                        },
                        Err(_) => {},
                    }
                },
                Err(_) => {},
            }
        },
        SpecAst::VariableDeclaration(name, value, ty) => {
            match *value {
                SpecAst::Syscall(nm2, inner2) => {
                    match *ty {
                        SpecAst::Type(t, m) => {
                            match spec_gen_syscall(arch, nm2, *inner2, fun, names1, k) {
                                Ok(_) => {
                                    lemma_gen_syscall_frame(
                                        arch,
                                        nm2,
                                        *inner2,
                                        fun,
                                        names1,
                                        names2,
                                        k,
                                    );
                                },
                                Err(_) => {},
                            }
                        },
                        _ => {},
                    }
                },
                _ => {},
            }
        },
        SpecAst::Syscall(nm, inner) => {
            match spec_gen_syscall(arch, nm, *inner, fun, names1, k) {
                Ok(_) => {
                    lemma_gen_syscall_frame(arch, nm, *inner, fun, names1, names2, k);
                },
                Err(_) => {},
            }
        },
        _ => {},
    }
}

/// Labels beyond those a range of nodes consumes do not change what it
/// emits.
proof fn lemma_gen_list_frame(
    nodes: Seq<SpecAst>,
    i: int,
    j: int,
    fun: Seq<char>,
    names1: Seq<Seq<char>>,
    names2: Seq<Seq<char>>,
    k: int,
    arch: Architecture,
)
    requires
        is_name_prefix(names1, names2),
        spec_gen_list(nodes, i, j, fun, names1, k, arch) matches Ok(t) && t.2 <= names1.len(),
    ensures
        spec_gen_list(nodes, i, j, fun, names2, k, arch) == spec_gen_list(
            nodes,
            i,
            j,
            fun,
            names1,
            k,
            arch,
        ),
    decreases nodes, j - i,
{
    if !(i < 0 || i >= j || j > nodes.len()) {
        match spec_gen(nodes[i], fun, names1, k, arch) {
            Ok((d, f2, k2)) => {
                match spec_gen_list(nodes, i + 1, j, f2, names1, k2, arch) {
                    Ok((d2, f3, k3)) => {
                        lemma_gen_list_mono(nodes, i + 1, j, f2, names1, k2, arch);
                        lemma_gen_frame(nodes[i], fun, names1, names2, k, arch);
                        lemma_gen_list_frame(nodes, i + 1, j, f2, names1, names2, k2, arch);
                    },
                    Err(_) => {},
                }
            },
            Err(_) => {},
        }
    }
}

/// Law: the lines a range of nodes emits are the lines of its parts,
/// concatenated in source order. Splitting the range at any point
/// changes nothing: no declaration or instruction is reordered.
pub proof fn lemma_gen_list_split(
    nodes: Seq<SpecAst>,
    i: int,
    m: int,
    j: int,
    fun: Seq<char>,
    names: Seq<Seq<char>>,
    k: int,
    arch: Architecture,
)
    requires
        0 <= i <= m <= j <= nodes.len(),
    ensures
        spec_gen_list(nodes, i, j, fun, names, k, arch) == (match spec_gen_list(
            nodes,
            i,
            m,
            fun,
            names,
            k,
            arch,
        ) {
            Err(e) => Err(e),
            Ok((d, f2, k2)) => match spec_gen_list(nodes, m, j, f2, names, k2, arch) {
                Err(e) => Err(e),
                Ok((d2, f3, k3)) => Ok((sec_add(d, d2), f3, k3)),
            },
        }),
    decreases m - i,
{
    if i == m {
        match spec_gen_list(nodes, m, j, fun, names, k, arch) {
            Ok((d2, f3, k3)) => {
                lemma_sec_add_empty(d2);
            },
            Err(_) => {},
        }
    } else {
        match spec_gen(nodes[i], fun, names, k, arch) {
            Err(_) => {},
            Ok((d, f2, k2)) => {
                lemma_gen_list_split(nodes, i + 1, m, j, f2, names, k2, arch);
                match spec_gen_list(nodes, i + 1, m, f2, names, k2, arch) {
                    Err(_) => {},
                    Ok((dmid, fm, km)) => {
                        match spec_gen_list(nodes, m, j, fm, names, km, arch) {
                            Err(_) => {},
                            Ok((dr, fr, kr)) => {
                                lemma_sec_add_assoc(d, dmid, dr);
                            },
                        }
                    },
                }
            },
        }
    }
}

/// One more node extends a successfully generated prefix.
#[verifier::rlimit(100)]
proof fn lemma_step_ok(
    nv: Seq<SpecAst>,
    j: int,
    fun0: Seq<char>,
    k0: int,
    arch0: Architecture,
    names_pre: Seq<Seq<char>>,
    names_post: Seq<Seq<char>>,
    sw0: SpecSections,
    sw_pre: SpecSections,
    sw_post: SpecSections,
    fun_pre: Seq<char>,
    fun_post: Seq<char>,
)
    requires
        0 <= j < nv.len(),
        is_name_prefix(names_pre, names_post),
        spec_gen_list(nv, 0, j, fun0, names_pre, k0, arch0) matches Ok(t) && sw_pre == sec_add(
            sw0,
            t.0,
        ) && t.1 == fun_pre && t.2 == names_pre.len(),
        spec_gen(nv[j], fun_pre, names_post, names_pre.len() as int, arch0) matches Ok(ts)
            && sw_post == sec_add(sw_pre, ts.0) && ts.1 == fun_post && ts.2 == names_post.len(),
    ensures
        spec_gen_list(nv, 0, j + 1, fun0, names_post, k0, arch0) matches Ok(t) && sw_post
            == sec_add(sw0, t.0) && t.1 == fun_post && t.2 == names_post.len(),
{
    match spec_gen_list(nv, 0, j, fun0, names_pre, k0, arch0) {
        Ok(tp) => {
            lemma_gen_list_frame(nv, 0, j, fun0, names_pre, names_post, k0, arch0);
            lemma_gen_list_split(nv, 0, j, j + 1, fun0, names_post, k0, arch0);
            match spec_gen(nv[j], fun_pre, names_post, names_pre.len() as int, arch0) {
                Ok(ts) => {
                    assert(spec_gen_list(nv, j + 1, j + 1, ts.1, names_post, ts.2, arch0) == Ok::<
                        (SpecSections, Seq<char>, int),
                        SpecCompileError,
                    >((sec_empty(), ts.1, ts.2)));
                    lemma_sec_add_empty(ts.0);
                    lemma_sec_add_assoc(sw0, tp.0, ts.0);
                },
                Err(_) => {},
            }
        },
        Err(_) => {},
    }
}

/// A failing node fails the whole range after a successful prefix.
proof fn lemma_step_err(
    nv: Seq<SpecAst>,
    j: int,
    fun0: Seq<char>,
    k0: int,
    arch0: Architecture,
    names_pre: Seq<Seq<char>>,
    names_post: Seq<Seq<char>>,
    fun_pre: Seq<char>,
    e: SpecCompileError,
)
    requires
        0 <= j < nv.len(),
        is_name_prefix(names_pre, names_post),
        spec_gen_list(nv, 0, j, fun0, names_pre, k0, arch0) matches Ok(t) && t.1 == fun_pre && t.2
            == names_pre.len(),
        spec_gen(nv[j], fun_pre, names_post, names_pre.len() as int, arch0) == Err::<
            (SpecSections, Seq<char>, int),
            SpecCompileError,
        >(e),
    ensures
        spec_gen_list(nv, 0, nv.len() as int, fun0, names_post, k0, arch0) == Err::<
            (SpecSections, Seq<char>, int),
            SpecCompileError,
        >(e),
{
    lemma_gen_list_frame(nv, 0, j, fun0, names_pre, names_post, k0, arch0);
    lemma_gen_list_split(nv, 0, j, nv.len() as int, fun0, names_post, k0, arch0);
}

/// The writer state a fresh generator starts with.
pub open spec fn spec_initial_sections() -> SpecSections {
    SpecSections { rodata: Seq::empty(), bss: Seq::empty(), text: seq![".global _start"@] }
}

/// The code generator: the section writer it fills, the name of the
/// function being lowered, the target architecture, and the synthetic
/// labels drawn so far, in draw order.
#[derive(Debug)]
pub struct Generator {
    pub section_writer: SectionWriter,
    pub last_fun_name: String,
    pub arch: Architecture,
    pub fresh_names: Vec<String>,
}

/// What every generator step preserves: the architecture, the labels
/// already drawn, and the well-formed shape of every new label.
pub open spec fn gen_frame_inv(pre: Generator, post: Generator) -> bool {
    &&& post.arch_spec() == pre.arch_spec()
    &&& pre.names().len() <= post.names().len()
    &&& post.names().subrange(0, pre.names().len() as int) == pre.names()
    &&& forall|i: int|
        pre.names().len() <= i < post.names().len() ==> is_fresh_name(#[trigger] post.names()[i])
}

proof fn lemma_frame_inv_trans(a: Generator, b: Generator, c: Generator)
    requires
        gen_frame_inv(a, b),
        gen_frame_inv(b, c),
    ensures
        gen_frame_inv(a, c),
{
    assert forall|i: int| 0 <= i < a.names().len() implies c.names()[i] == a.names()[i] by {
        assert(b.names().subrange(0, a.names().len() as int)[i] == b.names()[i]);
        assert(c.names().subrange(0, b.names().len() as int)[i] == c.names()[i]);
    }
    assert(c.names().subrange(0, a.names().len() as int) =~= a.names());
    assert forall|i: int|
        a.names().len() <= i < c.names().len() implies is_fresh_name(
        #[trigger] c.names()[i],
    ) by {
        if i < b.names().len() {
            assert(c.names().subrange(0, b.names().len() as int)[i] == c.names()[i]);
        }
    }
}

/// The label of a user symbol inside the current function.
fn mangle_label(fun: &str, name: &str) -> (r: String)
    ensures
        r@ == spec_mangle(fun@, name@),
{
    let mut s = fun.to_owned();
    s.append("_");
    s.append(name);
    s
}

fn write_deref_entry(num: u32, flabel: &str, var: &str) -> (r: String)
    ensures
        r@ == spec_write_deref_entry(num as nat, flabel@, var@),
{
    let mut s = "\tmov r7, #".to_owned();
    let n = crate::strutil::fmt_u32(num);
    s.append(n.as_str());
    s.append("\n\tldr r0, =");
    s.append(flabel);
    s.append("\n\tldr r0, [r0]\n\tldr r1, =");
    s.append(var);
    s.append("\n\tldr r2, =");
    s.append(var);
    s.append("_len\n\tsvc #0\n");
    s
}

impl Generator {
    /// The name of the function being lowered.
    pub open spec fn fun_name(&self) -> Seq<char> {
        self.last_fun_name@
    }

    /// The target architecture.
    pub open spec fn arch_spec(&self) -> Architecture {
        self.arch
    }

    /// The synthetic labels drawn so far.
    pub open spec fn names(&self) -> Seq<Seq<char>> {
        view_strings(self.fresh_names@)
    }

    /// A fresh generator for one compilation.
    pub fn new(arch: Architecture) -> (g: Generator)
        ensures
            g.section_writer@ == spec_initial_sections(),
            g.fun_name() == Seq::<char>::empty(),
            g.arch_spec() == arch,
            g.names() == Seq::<Seq<char>>::empty(),
    {
        let g = Generator {
            section_writer: SectionWriter::new(),
            last_fun_name: String::new(),
            arch,
            fresh_names: Vec::new(),
        };
        proof {
            assert(g.names() =~= Seq::<Seq<char>>::empty());
            assert(g.section_writer@.text =~= seq![".global _start"@]);
        }
        g
    }

    /// The synthetic labels drawn so far, in draw order.
    pub fn drawn_names(&self) -> (r: &Vec<String>)
        ensures
            view_strings(r@) == self.names(),
    {
        &self.fresh_names
    }

    /// Draw one fresh synthetic label and record it.
    fn fresh_name(&mut self) -> (r: String)
        ensures
            gen_frame_inv(*old(self), *final(self)),
            final(self).fun_name() == old(self).fun_name(),
            final(self).section_writer@ == old(self).section_writer@,
            final(self).names() =~= old(self).names().push(r@),
            final(self).names().len() == old(self).names().len() + 1,
            is_fresh_name(r@),
    {
        let var = crate::utils::generate_str_varname();
        self.fresh_names.push(var.clone());
        proof {
            assert(self.names() =~= old(self).names().push(var@));
            assert(self.names().subrange(0, old(self).names().len() as int) =~= old(self).names());
        }
        var
    }

    /// Emit a numeric variable: a mutable one is reserved in `.bss` and
    /// initialized in `.text`; an immutable one is a `.word` in `.rodata`.
    fn store_num_variable(
        &mut self,
        label: &str,
        val: usize,
        value_type: &Token,
        is_mutable: bool,
    ) -> (r: Result<(), CompileError>)
        ensures
            final(self).fun_name() == old(self).fun_name(),
            final(self).arch_spec() == old(self).arch_spec(),
            final(self).names() == old(self).names(),
            match r {
                Ok(()) => spec_store_num(label@, val as nat, value_type@, is_mutable) matches Ok(d)
                    && final(self).section_writer@ == sec_add(old(self).section_writer@, d),
                Err(e) => spec_store_num(label@, val as nat, value_type@, is_mutable) == Err::<
                    SpecSections,
                    _,
                >(e@) && final(self).section_writer@ == old(self).section_writer@,
            },
    {
        if is_mutable {
            let is_ty = match value_type {
                Token::Bool | Token::Char | Token::Str | Token::Int8 | Token::Int16
                | Token::Int32 => true,
                _ => false,
            };
            if !is_ty {
                return Err(
                    CompileError::UnsupportedConstruct(
                        Box::new(AstNode::Type(value_type.duplicate(), is_mutable)),
                    ),
                );
            }
            proof {
                assert(is_type_keyword(value_type@));
            }
            let size = crate::utils::get_bytes_from_type(value_type);
            self.section_writer.declare_bss(label, size);
            self.section_writer.push_text(crate::arm32::ldr_label("r1", label));
            self.section_writer.push_text(crate::arm32::mov_imm("r0", val));
            self.section_writer.push_text("str r0, [r1]".to_owned());
            proof {
                let d = spec_store_num(label@, val as nat, value_type@, is_mutable)->Ok_0;
                assert(self.section_writer@.rodata =~= sec_add(old(self).section_writer@, d).rodata);
                assert(self.section_writer@.bss =~= sec_add(old(self).section_writer@, d).bss);
                assert(self.section_writer@.text =~= sec_add(old(self).section_writer@, d).text);
            }
            Ok(())
        } else {
            let word = #[verifier::truncate] (val as i32);
            self.section_writer.push_rodata_word(label, word);
            proof {
                let d = spec_store_num(label@, val as nat, value_type@, is_mutable)->Ok_0;
                assert(self.section_writer@.rodata =~= sec_add(old(self).section_writer@, d).rodata);
                assert(self.section_writer@.bss =~= sec_add(old(self).section_writer@, d).bss);
                assert(self.section_writer@.text =~= sec_add(old(self).section_writer@, d).text);
            }
            Ok(())
        }
    }

    /// Emit the store of a literal to a mutable variable's label.
    fn assign_num_variable(&mut self, label: &str, val: usize)
        ensures
            final(self).fun_name() == old(self).fun_name(),
            final(self).arch_spec() == old(self).arch_spec(),
            final(self).names() == old(self).names(),
            final(self).section_writer@ == sec_add(
                old(self).section_writer@,
                sec_text(spec_store_text(label@, val as nat)),
            ),
    {
        self.section_writer.push_text(crate::arm32::ldr_label("r1", label));
        self.section_writer.push_text(crate::arm32::mov_imm("r0", val));
        self.section_writer.push_text("str r0, [r1]".to_owned());
        proof {
            let d = sec_text(spec_store_text(label@, val as nat));
            assert(self.section_writer@.rodata =~= sec_add(old(self).section_writer@, d).rodata);
            assert(self.section_writer@.bss =~= sec_add(old(self).section_writer@, d).bss);
            assert(self.section_writer@.text =~= sec_add(old(self).section_writer@, d).text);
        }
    }

    /// Reserve storage for an uninitialized buffer.
    fn store_buffer(&mut self, label: &str, value_type: &Token) -> (r: Result<(), CompileError>)
        ensures
            final(self).fun_name() == old(self).fun_name(),
            final(self).arch_spec() == old(self).arch_spec(),
            final(self).names() == old(self).names(),
            match r {
                Ok(()) => is_type_keyword(value_type@) && final(self).section_writer@ == sec_add(
                    old(self).section_writer@,
                    sec_bss(seq![spec_lcomm_line(label@, spec_type_size(value_type@))]),
                ),
                Err(e) => !is_type_keyword(value_type@) && e@
                    == SpecCompileError::UnsupportedConstruct(SpecAst::Type(value_type@, true))
                    && final(self).section_writer@ == old(self).section_writer@,
            },
    {
        let is_ty = match value_type {
            Token::Bool | Token::Char | Token::Str | Token::Int8 | Token::Int16
            | Token::Int32 => true,
            _ => false,
        };
        if !is_ty {
            return Err(
                CompileError::UnsupportedConstruct(
                    Box::new(AstNode::Type(value_type.duplicate(), true)),
                ),
            );
        }
        proof {
            assert(is_type_keyword(value_type@));
        }
        let size = crate::utils::get_bytes_from_type(value_type);
        self.section_writer.declare_bss(label, size);
        proof {
            let d = sec_bss(seq![spec_lcomm_line(label@, spec_type_size(value_type@))]);
            assert(self.section_writer@.rodata =~= sec_add(old(self).section_writer@, d).rodata);
            assert(self.section_writer@.bss =~= sec_add(old(self).section_writer@, d).bss);
            assert(self.section_writer@.text =~= sec_add(old(self).section_writer@, d).text);
        }
        Ok(())
    }

    /// Emit an immutable string variable: an `.asciz` constant with its
    /// length sibling. A mutable string has no lowering.
    fn store_str_variable(&mut self, label: &str, val: &str, is_mutable: bool) -> (r: Result<
        (),
        CompileError,
    >)
        ensures
            final(self).fun_name() == old(self).fun_name(),
            final(self).arch_spec() == old(self).arch_spec(),
            final(self).names() == old(self).names(),
            match r {
                Ok(()) => !is_mutable && final(self).section_writer@ == sec_add(
                    old(self).section_writer@,
                    sec_rodata(seq![spec_asciz_line(label@, val@), spec_len_line(label@)]),
                ),
                Err(e) => is_mutable && e@ == SpecCompileError::UnsupportedConstruct(
                    SpecAst::IStr(val@),
                ) && final(self).section_writer@ == old(self).section_writer@,
            },
    {
        if is_mutable {
            return Err(CompileError::UnsupportedConstruct(Box::new(AstNode::IStr(val.to_owned()))));
        }
        self.section_writer.push_rodata_str_with_len(label, val);
        proof {
            let d = sec_rodata(seq![spec_asciz_line(label@, val@), spec_len_line(label@)]);
            assert(self.section_writer@.rodata =~= sec_add(old(self).section_writer@, d).rodata);
            assert(self.section_writer@.bss =~= sec_add(old(self).section_writer@, d).bss);
            assert(self.section_writer@.text =~= sec_add(old(self).section_writer@, d).text);
        }
        Ok(())
    }

    /// Lower a `write` syscall node.
    #[verifier::rlimit(100)]
    fn generate_write(&mut self, inner: &AstNode) -> (r: Result<(), CompileError>)
        ensures
            gen_frame_inv(*old(self), *final(self)),
            final(self).fun_name() == old(self).fun_name(),
            match r {
                Ok(()) => spec_gen_syscall(
                    old(self).arch_spec(),
                    "write"@,
                    inner@,
                    old(self).fun_name(),
                    final(self).names(),
                    old(self).names().len() as int,
                ) matches Ok(t) && final(self).section_writer@ == sec_add(
                    old(self).section_writer@,
                    t.0,
                ) && t.1 == final(self).names().len() as int,
                Err(e) => spec_gen_syscall(
                    old(self).arch_spec(),
                    "write"@,
                    inner@,
                    old(self).fun_name(),
                    final(self).names(),
                    old(self).names().len() as int,
                ) == Err::<(SpecSections, int), _>(e@),
            },
    {
        proof {
            reveal(spec_gen_syscall);
            crate::syscall_mapper::lemma_syscall_names_distinct();
        }
        let ghost k0 = old(self).names().len() as int;
        let (fd, data) = match inner {
            AstNode::Write(fd, data) => (fd, data),
            _ => {
                proof {
                    assert(self.names().subrange(0, self.names().len() as int) =~= self.names());
                }
                return Err(CompileError::UnsupportedConstruct(Box::new(inner.duplicate())));
            },
        };
        let arm32_ok = match self.arch {
            Architecture::Arm32 => true,
            _ => false,
        };
        if !arm32_ok {
            proof {
                assert(self.names().subrange(0, self.names().len() as int) =~= self.names());
            }
            return Err(
                CompileError::UnknownArchitecture(crate::syscall_mapper::arch_name(self.arch)),
            );
        }
        proof {
            crate::syscall_mapper::lemma_syscall_num_values();
        }
        let syscall_number = crate::syscall_mapper::get_syscall_num_or_panic(self.arch, "write");
        match data {
            Token::StrContainer(s) => {
                let var = self.fresh_name();
                self.section_writer.push_rodata_str_with_len(var.as_str(), s.as_str());
                match fd {
                    Token::Int8Container(n) => {
                        let fd_str = crate::strutil::fmt_i32(*n as i32);
                        let mut len_label = var.clone();
                        len_label.append("_len");
                        let instr = syscall_3args(
                            syscall_number,
                            fd_str.as_str(),
                            var.as_str(),
                            len_label.as_str(),
                        );
                        self.section_writer.push_text(instr);
                    },
                    Token::Int16Container(n) => {
                        let fd_str = crate::strutil::fmt_i32(*n as i32);
                        let mut len_label = var.clone();
                        len_label.append("_len");
                        let instr = syscall_3args(
                            syscall_number,
                            fd_str.as_str(),
                            var.as_str(),
                            len_label.as_str(),
                        );
                        self.section_writer.push_text(instr);
                    },
                    Token::Int32Container(n) => {
                        let fd_str = crate::strutil::fmt_i32(*n);
                        let mut len_label = var.clone();
                        len_label.append("_len");
                        let instr = syscall_3args(
                            syscall_number,
                            fd_str.as_str(),
                            var.as_str(),
                            len_label.as_str(),
                        );
                        self.section_writer.push_text(instr);
                    },
                    Token::Identifier(id) => {
                        let flabel = mangle_label(self.last_fun_name.as_str(), id.as_str());
                        let instr = write_deref_entry(syscall_number, flabel.as_str(), var.as_str());
                        self.section_writer.push_text(instr);
                    },
                    _ => {
                        return Err(CompileError::UnsupportedConstruct(Box::new(inner.duplicate())));
                    },
                }
                store_syscall_return_value(&mut self.section_writer.text);
                proof {
                    assert(name_at(final(self).names(), k0) == var@);
                    let t = spec_gen_syscall(
                        old(self).arch_spec(),
                        "write"@,
                        inner@,
                        old(self).fun_name(),
                        final(self).names(),
                        k0,
                    )->Ok_0;
                    assert(self.section_writer@.rodata =~= sec_add(
                        old(self).section_writer@,
                        t.0,
                    ).rodata);
                    assert(self.section_writer@.bss =~= sec_add(old(self).section_writer@, t.0).bss);
                    assert(self.section_writer@.text =~= sec_add(
                        old(self).section_writer@,
                        t.0,
                    ).text);
                }
                Ok(())
            },
            Token::Identifier(id) => {
                let label = mangle_label(self.last_fun_name.as_str(), id.as_str());
                match fd {
                    Token::Int8Container(n) => {
                        let fd_str = crate::strutil::fmt_i32(*n as i32);
                        let mut len_label = label.clone();
                        len_label.append("_len");
                        let instr = syscall_3args(
                            syscall_number,
                            fd_str.as_str(),
                            label.as_str(),
                            len_label.as_str(),
                        );
                        self.section_writer.push_text(instr);
                    },
                    Token::Int16Container(n) => {
                        let fd_str = crate::strutil::fmt_i32(*n as i32);
                        let mut len_label = label.clone();
                        len_label.append("_len");
                        let instr = syscall_3args(
                            syscall_number,
                            fd_str.as_str(),
                            label.as_str(),
                            len_label.as_str(),
                        );
                        self.section_writer.push_text(instr);
                    },
                    Token::Int32Container(n) => {
                        let fd_str = crate::strutil::fmt_i32(*n);
                        let mut len_label = label.clone();
                        len_label.append("_len");
                        let instr = syscall_3args(
                            syscall_number,
                            fd_str.as_str(),
                            label.as_str(),
                            len_label.as_str(),
                        );
                        self.section_writer.push_text(instr);
                    },
                    Token::Identifier(fid) => {
                        let flabel = mangle_label(self.last_fun_name.as_str(), fid.as_str());
                        let instr = write_deref_entry(
                            syscall_number,
                            flabel.as_str(),
                            label.as_str(),
                        );
                        self.section_writer.push_text(instr);
                    },
                    _ => {
                        proof {
                            assert(self.names().subrange(0, self.names().len() as int)
                                =~= self.names());
                        }
                        return Err(CompileError::UnsupportedConstruct(Box::new(inner.duplicate())));
                    },
                }
                store_syscall_return_value(&mut self.section_writer.text);
                proof {
                    assert(self.names().subrange(0, self.names().len() as int) =~= self.names());
                    let t = spec_gen_syscall(
                        old(self).arch_spec(),
                        "write"@,
                        inner@,
                        old(self).fun_name(),
                        final(self).names(),
                        k0,
                    )->Ok_0;
                    assert(self.section_writer@.rodata =~= sec_add(
                        old(self).section_writer@,
                        t.0,
                    ).rodata);
                    assert(self.section_writer@.bss =~= sec_add(old(self).section_writer@, t.0).bss);
                    assert(self.section_writer@.text =~= sec_add(
                        old(self).section_writer@,
                        t.0,
                    ).text);
                }
                Ok(())
            },
            _ => {
                proof {
                    assert(self.names().subrange(0, self.names().len() as int) =~= self.names());
                }
                Err(CompileError::UnsupportedConstruct(Box::new(inner.duplicate())))
            },
        }
    }

    /// Lower a `read` syscall node.
    #[verifier::rlimit(100)]
    fn generate_read(&mut self, inner: &AstNode) -> (r: Result<(), CompileError>)
        ensures
            gen_frame_inv(*old(self), *final(self)),
            final(self).fun_name() == old(self).fun_name(),
            final(self).names() == old(self).names(),
            match r {
                Ok(()) => spec_gen_syscall(
                    old(self).arch_spec(),
                    "read"@,
                    inner@,
                    old(self).fun_name(),
                    final(self).names(),
                    old(self).names().len() as int,
                ) matches Ok(t) && final(self).section_writer@ == sec_add(
                    old(self).section_writer@,
                    t.0,
                ) && t.1 == final(self).names().len() as int,
                Err(e) => spec_gen_syscall(
                    old(self).arch_spec(),
                    "read"@,
                    inner@,
                    old(self).fun_name(),
                    final(self).names(),
                    old(self).names().len() as int,
                ) == Err::<(SpecSections, int), _>(e@),
            },
    {
        proof {
            reveal(spec_gen_syscall);
            assert(self.names().subrange(0, self.names().len() as int) =~= self.names());
            crate::syscall_mapper::lemma_syscall_names_distinct();
        }
        let (fd, buffer) = match inner {
            AstNode::Read(fd, buffer) => (fd, buffer),
            _ => {
                return Err(CompileError::UnsupportedConstruct(Box::new(inner.duplicate())));
            },
        };
        let arm32_ok = match self.arch {
            Architecture::Arm32 => true,
            _ => false,
        };
        if !arm32_ok {
            return Err(
                CompileError::UnknownArchitecture(crate::syscall_mapper::arch_name(self.arch)),
            );
        }
        proof {
            crate::syscall_mapper::lemma_syscall_num_values();
        }
        let syscall_number = crate::syscall_mapper::get_syscall_num_or_panic(self.arch, "read");
        let b = match buffer {
            Token::Identifier(b) => b,
            _ => {
                return Err(CompileError::UnsupportedConstruct(Box::new(inner.duplicate())));
            },
        };
        let label = mangle_label(self.last_fun_name.as_str(), b.as_str());
        let fd_str = match fd {
            Token::Int8Container(n) => crate::strutil::fmt_i32(*n as i32),
            Token::Int16Container(n) => crate::strutil::fmt_i32(*n as i32),
            Token::Int32Container(n) => crate::strutil::fmt_i32(*n),
            Token::Identifier(id) => mangle_label(self.last_fun_name.as_str(), id.as_str()),
            _ => {
                return Err(CompileError::UnsupportedConstruct(Box::new(inner.duplicate())));
            },
        };
        let instr = syscall_2args(syscall_number, fd_str.as_str(), label.as_str());
        self.section_writer.push_text(instr);
        store_syscall_return_value(&mut self.section_writer.text);
        proof {
            let t = spec_gen_syscall(
                old(self).arch_spec(),
                "read"@,
                inner@,
                old(self).fun_name(),
                final(self).names(),
                old(self).names().len() as int,
            )->Ok_0;
            assert(self.section_writer@.rodata =~= sec_add(old(self).section_writer@, t.0).rodata);
            assert(self.section_writer@.bss =~= sec_add(old(self).section_writer@, t.0).bss);
            assert(self.section_writer@.text =~= sec_add(old(self).section_writer@, t.0).text);
        }
        Ok(())
    }

    /// Lower an `exit` syscall node. `exit` does not return, so no
    /// result store follows it.
    #[verifier::rlimit(100)]
    fn generate_exit(&mut self, inner: &AstNode) -> (r: Result<(), CompileError>)
        ensures
            gen_frame_inv(*old(self), *final(self)),
            final(self).fun_name() == old(self).fun_name(),
            final(self).names() == old(self).names(),
            match r {
                Ok(()) => spec_gen_syscall(
                    old(self).arch_spec(),
                    "exit"@,
                    inner@,
                    old(self).fun_name(),
                    final(self).names(),
                    old(self).names().len() as int,
                ) matches Ok(t) && final(self).section_writer@ == sec_add(
                    old(self).section_writer@,
                    t.0,
                ) && t.1 == final(self).names().len() as int,
                Err(e) => spec_gen_syscall(
                    old(self).arch_spec(),
                    "exit"@,
                    inner@,
                    old(self).fun_name(),
                    final(self).names(),
                    old(self).names().len() as int,
                ) == Err::<(SpecSections, int), _>(e@),
            },
    {
        proof {
            reveal(spec_gen_syscall);
            assert(self.names().subrange(0, self.names().len() as int) =~= self.names());
            crate::syscall_mapper::lemma_syscall_names_distinct();
        }
        let code = match inner {
            AstNode::Exit(code) => code,
            _ => {
                return Err(CompileError::UnsupportedConstruct(Box::new(inner.duplicate())));
            },
        };
        let arm32_ok = match self.arch {
            Architecture::Arm32 => true,
            _ => false,
        };
        if !arm32_ok {
            return Err(
                CompileError::UnknownArchitecture(crate::syscall_mapper::arch_name(self.arch)),
            );
        }
        proof {
            crate::syscall_mapper::lemma_syscall_num_values();
        }
        let syscall_number = crate::syscall_mapper::get_syscall_num_or_panic(self.arch, "exit");
        let code_str = match code {
            Token::Int8Container(n) => crate::strutil::fmt_i32(*n as i32),
            Token::Int16Container(n) => crate::strutil::fmt_i32(*n as i32),
            Token::Int32Container(n) => crate::strutil::fmt_i32(*n),
            Token::Identifier(id) => mangle_label(self.last_fun_name.as_str(), id.as_str()),
            _ => {
                return Err(CompileError::UnsupportedConstruct(Box::new(inner.duplicate())));
            },
        };
        let instr = syscall_1arg(syscall_number, code_str.as_str());
        self.section_writer.push_text(instr);
        proof {
            let t = spec_gen_syscall(
                old(self).arch_spec(),
                "exit"@,
                inner@,
                old(self).fun_name(),
                final(self).names(),
                old(self).names().len() as int,
            )->Ok_0;
            assert(self.section_writer@.rodata =~= sec_add(old(self).section_writer@, t.0).rodata);
            assert(self.section_writer@.bss =~= sec_add(old(self).section_writer@, t.0).bss);
            assert(self.section_writer@.text =~= sec_add(old(self).section_writer@, t.0).text);
        }
        Ok(())
    }

    /// Lower an `open` syscall node.
    #[verifier::rlimit(100)]
    fn generate_open(&mut self, inner: &AstNode) -> (r: Result<(), CompileError>)
        ensures
            gen_frame_inv(*old(self), *final(self)),
            final(self).fun_name() == old(self).fun_name(),
            match r {
                Ok(()) => spec_gen_syscall(
                    old(self).arch_spec(),
                    "open"@,
                    inner@,
                    old(self).fun_name(),
                    final(self).names(),
                    old(self).names().len() as int,
                ) matches Ok(t) && final(self).section_writer@ == sec_add(
                    old(self).section_writer@,
                    t.0,
                ) && t.1 == final(self).names().len() as int,
                Err(e) => spec_gen_syscall(
                    old(self).arch_spec(),
                    "open"@,
                    inner@,
                    old(self).fun_name(),
                    final(self).names(),
                    old(self).names().len() as int,
                ) == Err::<(SpecSections, int), _>(e@),
            },
    {
        proof {
            reveal(spec_gen_syscall);
            crate::syscall_mapper::lemma_syscall_names_distinct();
        }
        let ghost k0 = old(self).names().len() as int;
        let (path, flags, mode) = match inner {
            AstNode::Open(path, flags, mode) => (path, flags, mode),
            _ => {
                proof {
                    assert(self.names().subrange(0, self.names().len() as int) =~= self.names());
                }
                return Err(CompileError::UnsupportedConstruct(Box::new(inner.duplicate())));
            },
        };
        let arm32_ok = match self.arch {
            Architecture::Arm32 => true,
            _ => false,
        };
        if !arm32_ok {
            proof {
                assert(self.names().subrange(0, self.names().len() as int) =~= self.names());
            }
            return Err(
                CompileError::UnknownArchitecture(crate::syscall_mapper::arch_name(self.arch)),
            );
        }
        proof {
            crate::syscall_mapper::lemma_syscall_num_values();
        }
        let syscall_number = crate::syscall_mapper::get_syscall_num_or_panic(self.arch, "open");
        let flags_str = match flags {
            Token::Int8Container(n) => crate::strutil::fmt_i32(*n as i32),
            Token::Int16Container(n) => crate::strutil::fmt_i32(*n as i32),
            Token::Int32Container(n) => crate::strutil::fmt_i32(*n),
            Token::Identifier(id) => mangle_label(self.last_fun_name.as_str(), id.as_str()),
            _ => {
                proof {
                    assert(self.names().subrange(0, self.names().len() as int) =~= self.names());
                }
                return Err(CompileError::UnsupportedConstruct(Box::new(inner.duplicate())));
            },
        };
        let mode_str = match mode {
            Token::Int8Container(n) => crate::strutil::fmt_i32(*n as i32),
            Token::Int16Container(n) => crate::strutil::fmt_i32(*n as i32),
            Token::Int32Container(n) => crate::strutil::fmt_i32(*n),
            Token::Identifier(id) => mangle_label(self.last_fun_name.as_str(), id.as_str()),
            _ => {
                proof {
                    assert(self.names().subrange(0, self.names().len() as int) =~= self.names());
                }
                return Err(CompileError::UnsupportedConstruct(Box::new(inner.duplicate())));
            },
        };
        match path {
            Token::StrContainer(s) => {
                let var = self.fresh_name();
                self.section_writer.push_rodata_str_with_len(var.as_str(), s.as_str());
                let instr = syscall_3args(
                    syscall_number,
                    var.as_str(),
                    flags_str.as_str(),
                    mode_str.as_str(),
                );
                self.section_writer.push_text(instr);
                store_syscall_return_value(&mut self.section_writer.text);
                proof {
                    assert(name_at(final(self).names(), k0) == var@);
                    let t = spec_gen_syscall(
                        old(self).arch_spec(),
                        "open"@,
                        inner@,
                        old(self).fun_name(),
                        final(self).names(),
                        k0,
                    )->Ok_0;
                    assert(self.section_writer@.rodata =~= sec_add(
                        old(self).section_writer@,
                        t.0,
                    ).rodata);
                    assert(self.section_writer@.bss =~= sec_add(old(self).section_writer@, t.0).bss);
                    assert(self.section_writer@.text =~= sec_add(
                        old(self).section_writer@,
                        t.0,
                    ).text);
                }
                Ok(())
            },
            Token::Identifier(p) => {
                let plabel = mangle_label(self.last_fun_name.as_str(), p.as_str());
                let instr = syscall_3args(
                    syscall_number,
                    plabel.as_str(),
                    flags_str.as_str(),
                    mode_str.as_str(),
                );
                self.section_writer.push_text(instr);
                store_syscall_return_value(&mut self.section_writer.text);
                proof {
                    assert(self.names().subrange(0, self.names().len() as int) =~= self.names());
                    let t = spec_gen_syscall(
                        old(self).arch_spec(),
                        "open"@,
                        inner@,
                        old(self).fun_name(),
                        final(self).names(),
                        k0,
                    )->Ok_0;
                    assert(self.section_writer@.rodata =~= sec_add(
                        old(self).section_writer@,
                        t.0,
                    ).rodata);
                    assert(self.section_writer@.bss =~= sec_add(old(self).section_writer@, t.0).bss);
                    assert(self.section_writer@.text =~= sec_add(
                        old(self).section_writer@,
                        t.0,
                    ).text);
                }
                Ok(())
            },
            _ => {
                proof {
                    assert(self.names().subrange(0, self.names().len() as int) =~= self.names());
                }
                Err(CompileError::UnsupportedConstruct(Box::new(inner.duplicate())))
            },
        }
    }

    /// Lower a `sysinfo` syscall node.
    #[verifier::rlimit(100)]
    fn generate_sysinfo(&mut self, inner: &AstNode) -> (r: Result<(), CompileError>)
        ensures
            gen_frame_inv(*old(self), *final(self)),
            final(self).fun_name() == old(self).fun_name(),
            final(self).names() == old(self).names(),
            match r {
                Ok(()) => spec_gen_syscall(
                    old(self).arch_spec(),
                    "sysinfo"@,
                    inner@,
                    old(self).fun_name(),
                    final(self).names(),
                    old(self).names().len() as int,
                ) matches Ok(t) && final(self).section_writer@ == sec_add(
                    old(self).section_writer@,
                    t.0,
                ) && t.1 == final(self).names().len() as int,
                Err(e) => spec_gen_syscall(
                    old(self).arch_spec(),
                    "sysinfo"@,
                    inner@,
                    old(self).fun_name(),
                    final(self).names(),
                    old(self).names().len() as int,
                ) == Err::<(SpecSections, int), _>(e@),
            },
    {
        proof {
            reveal(spec_gen_syscall);
            assert(self.names().subrange(0, self.names().len() as int) =~= self.names());
            crate::syscall_mapper::lemma_syscall_names_distinct();
        }
        let b = match inner {
            AstNode::Sysinfo(b) => b,
            _ => {
                return Err(CompileError::UnsupportedConstruct(Box::new(inner.duplicate())));
            },
        };
        let arm32_ok = match self.arch {
            Architecture::Arm32 => true,
            _ => false,
        };
        if !arm32_ok {
            return Err(
                CompileError::UnknownArchitecture(crate::syscall_mapper::arch_name(self.arch)),
            );
        }
        proof {
            crate::syscall_mapper::lemma_syscall_num_values();
        }
        let syscall_number = crate::syscall_mapper::get_syscall_num_or_panic(self.arch, "sysinfo");
        let label = mangle_label(self.last_fun_name.as_str(), b.as_str());
        let instr = syscall_1arg(syscall_number, label.as_str());
        self.section_writer.push_text(instr);
        store_syscall_return_value(&mut self.section_writer.text);
        proof {
            let t = spec_gen_syscall(
                old(self).arch_spec(),
                "sysinfo"@,
                inner@,
                old(self).fun_name(),
                final(self).names(),
                old(self).names().len() as int,
            )->Ok_0;
            assert(self.section_writer@.rodata =~= sec_add(old(self).section_writer@, t.0).rodata);
            assert(self.section_writer@.bss =~= sec_add(old(self).section_writer@, t.0).bss);
            assert(self.section_writer@.text =~= sec_add(old(self).section_writer@, t.0).text);
        }
        Ok(())
    }

    /// Lower one syscall node, dispatched on its name.
    fn gen_syscall(&mut self, name: &str, inner: &AstNode) -> (r: Result<(), CompileError>)
        ensures
            gen_frame_inv(*old(self), *final(self)),
            final(self).fun_name() == old(self).fun_name(),
            match r {
                Ok(()) => spec_gen_syscall(
                    old(self).arch_spec(),
                    name@,
                    inner@,
                    old(self).fun_name(),
                    final(self).names(),
                    old(self).names().len() as int,
                ) matches Ok(t) && final(self).section_writer@ == sec_add(
                    old(self).section_writer@,
                    t.0,
                ) && t.1 == final(self).names().len() as int,
                Err(e) => spec_gen_syscall(
                    old(self).arch_spec(),
                    name@,
                    inner@,
                    old(self).fun_name(),
                    final(self).names(),
                    old(self).names().len() as int,
                ) == Err::<(SpecSections, int), _>(e@),
            },
    {
        proof {
            reveal(spec_gen_syscall);
        }
        if crate::strutil::str_eq(name, "write") {
            self.generate_write(inner)
        } else if crate::strutil::str_eq(name, "read") {
            self.generate_read(inner)
        } else if crate::strutil::str_eq(name, "exit") {
            self.generate_exit(inner)
        } else if crate::strutil::str_eq(name, "open") {
            self.generate_open(inner)
        } else if crate::strutil::str_eq(name, "sysinfo") {
            self.generate_sysinfo(inner)
        } else {
            proof {
                assert(self.names().subrange(0, self.names().len() as int) =~= self.names());
            }
            Err(CompileError::UnknownSyscall(name.to_owned()))
        }
    }

    /// Lower a declaration whose initializer is a syscall: reserve the
    /// variable, emit the call, then copy the return buffer into it.
    #[verifier::rlimit(100)]
    #[verifier::spinoff_prover]
    fn gen_decl_syscall_init(&mut self, label: &str, nm2: &str, inner2: &AstNode) -> (r: Result<
        (),
        CompileError,
    >)
        ensures
            gen_frame_inv(*old(self), *final(self)),
            final(self).fun_name() == old(self).fun_name(),
            match r {
                Ok(()) => spec_gen_syscall(
                    old(self).arch_spec(),
                    nm2@,
                    inner2@,
                    old(self).fun_name(),
                    final(self).names(),
                    old(self).names().len() as int,
                ) matches Ok(t) && final(self).section_writer@ == sec_add(
                    old(self).section_writer@,
                    sec_add(
                        sec_bss(seq![spec_lcomm_line(label@, 4)]),
                        sec_add(
                            t.0,
                            sec_text(
                                seq![
                                    crate::arm32::spec_load_ret_head(label@),
                                    crate::arm32::spec_load_ret_store(label@),
                                ],
                            ),
                        ),
                    ),
                ) && t.1 == final(self).names().len() as int,
                Err(e) => spec_gen_syscall(
                    old(self).arch_spec(),
                    nm2@,
                    inner2@,
                    old(self).fun_name(),
                    final(self).names(),
                    old(self).names().len() as int,
                ) == Err::<(SpecSections, int), _>(e@),
            },
    {
        self.section_writer.declare_bss(label, 4);
        let ghost mid1 = *self;
        match self.gen_syscall(nm2, inner2) {
            Ok(()) => {},
            Err(e) => {
                return Err(e);
            },
        }
        crate::arm32::load_syscall_return_value_into_label(
            &mut self.section_writer.text,
            label,
        );
        proof {
            let d = spec_gen_syscall(
                old(self).arch_spec(),
                nm2@,
                inner2@,
                old(self).fun_name(),
                self.names(),
                old(self).names().len() as int,
            )->Ok_0.0;
            let whole = sec_add(
                sec_bss(seq![spec_lcomm_line(label@, 4)]),
                sec_add(
                    d,
                    sec_text(
                        seq![
                            crate::arm32::spec_load_ret_head(label@),
                            crate::arm32::spec_load_ret_store(label@),
                        ],
                    ),
                ),
            );
            assert(self.section_writer@.rodata =~= sec_add(
                old(self).section_writer@,
                whole,
            ).rodata);
            assert(self.section_writer@.bss =~= sec_add(old(self).section_writer@, whole).bss);
            assert(self.section_writer@.text =~= sec_add(old(self).section_writer@, whole).text);
        }
        Ok(())
    }

    /// Emit an inline assembly block: the opening marker, each line
    /// indented, then the closing marker.
    #[verifier::rlimit(100)]
    fn gen_inline_lines(&mut self, lines: &Vec<String>)
        ensures
            final(self).fun_name() == old(self).fun_name(),
            final(self).arch_spec() == old(self).arch_spec(),
            final(self).names() == old(self).names(),
            final(self).section_writer@ == sec_add(
                old(self).section_writer@,
                sec_text(
                    seq!["\t@ ===Inline Assembly==="@] + spec_indent_all(view_strings(lines@))
                        + seq!["\t@ =====================\n"@],
                ),
            ),
    {
        let ghost sw0 = self.section_writer@;
        let ghost lv = view_strings(lines@);
        self.section_writer.push_text("\t@ ===Inline Assembly===".to_owned());
        let ghost header = "\t@ ===Inline Assembly==="@;
        let mut j: usize = 0;
        proof {
            assert(self.section_writer@.text =~= sw0.text.push(header) + spec_indent_all(
                lv.subrange(0, 0),
            ));
        }
        while j < lines.len()
            invariant
                j <= lines.len(),
                lv == view_strings(lines@),
                self.fun_name() == old(self).fun_name(),
                self.arch_spec() == old(self).arch_spec(),
                self.names() == old(self).names(),
                self.section_writer@.rodata == sw0.rodata,
                self.section_writer@.bss == sw0.bss,
                sw0 == old(self).section_writer@,
                self.section_writer@.text =~= sw0.text.push(header) + spec_indent_all(
                    lv.subrange(0, j as int),
                ),
            decreases lines.len() - j,
        {
            let mut entry = "\t".to_owned();
            entry.append(lines[j].as_str());
            self.section_writer.push_text(entry);
            j += 1;
            proof {
                assert(spec_indent_all(lv.subrange(0, j as int)) =~= spec_indent_all(
                    lv.subrange(0, j as int - 1),
                ).push("\t"@ + lv[j as int - 1]));
                assert(self.section_writer@.text =~= sw0.text.push(header) + spec_indent_all(
                    lv.subrange(0, j as int),
                ));
            }
        }
        self.section_writer.push_text("\t@ =====================\n".to_owned());
        proof {
            assert(lv.subrange(0, lv.len() as int) =~= lv);
            let d = sec_text(
                seq![header] + spec_indent_all(lv) + seq!["\t@ =====================\n"@],
            );
            assert(self.section_writer@.rodata =~= sec_add(sw0, d).rodata);
            assert(self.section_writer@.bss =~= sec_add(sw0, d).bss);
            assert(self.section_writer@.text =~= sec_add(sw0, d).text);
        }
    }

    /// Lower a variable declaration node.
    #[verifier::rlimit(100)]
    #[verifier::spinoff_prover]
    fn gen_var_decl(&mut self, name: &String, value: &AstNode, ty: &AstNode) -> (r: Result<
        (),
        CompileError,
    >)
        ensures
            gen_frame_inv(*old(self), *final(self)),
            match r {
                Ok(()) => spec_gen(
                    SpecAst::VariableDeclaration(name@, Box::new(value@), Box::new(ty@)),
                    old(self).fun_name(),
                    final(self).names(),
                    old(self).names().len() as int,
                    old(self).arch_spec(),
                ) matches Ok(t) && final(self).section_writer@ == sec_add(
                    old(self).section_writer@,
                    t.0,
                ) && t.1 == final(self).fun_name() && t.2 == final(self).names().len() as int,
                Err(e) => spec_gen(
                    SpecAst::VariableDeclaration(name@, Box::new(value@), Box::new(ty@)),
                    old(self).fun_name(),
                    final(self).names(),
                    old(self).names().len() as int,
                    old(self).arch_spec(),
                ) == Err::<(SpecSections, Seq<char>, int), _>(e@),
            },
    {
        proof {
            assert(self.names().subrange(0, self.names().len() as int) =~= self.names());
        }
        match ty {
            AstNode::Type(t, m) => {
                let label = mangle_label(self.last_fun_name.as_str(), name.as_str());
                match value {
                    AstNode::IBool(b) => {
                        let val: usize = if *b {
                            1
                        } else {
                            0
                        };
                        match self.store_num_variable(label.as_str(), val, t, *m) {
                            Ok(()) => Ok(()),
                            Err(e) => Err(e),
                        }
                    },
                    AstNode::IChar(c) => {
                        let val: usize = *c as usize;
                        match self.store_num_variable(label.as_str(), val, t, *m) {
                            Ok(()) => Ok(()),
                            Err(e) => Err(e),
                        }
                    },
                    AstNode::IInt8(v) => {
                        let val: usize = #[verifier::truncate] (*v as usize);
                        match self.store_num_variable(label.as_str(), val, t, *m) {
                            Ok(()) => Ok(()),
                            Err(e) => Err(e),
                        }
                    },
                    AstNode::IInt16(v) => {
                        let val: usize = #[verifier::truncate] (*v as usize);
                        match self.store_num_variable(label.as_str(), val, t, *m) {
                            Ok(()) => Ok(()),
                            Err(e) => Err(e),
                        }
                    },
                    AstNode::IInt32(v) => {
                        let val: usize = #[verifier::truncate] (*v as usize);
                        match self.store_num_variable(label.as_str(), val, t, *m) {
                            Ok(()) => Ok(()),
                            Err(e) => Err(e),
                        }
                    },
                    AstNode::IStr(s) => {
                        match self.store_str_variable(label.as_str(), s.as_str(), *m) {
                            Ok(()) => Ok(()),
                            Err(e) => Err(e),
                        }
                    },
                    AstNode::Syscall(nm2, inner2) => {
                        match self.gen_decl_syscall_init(label.as_str(), nm2.as_str(), inner2) {
                            Ok(()) => Ok(()),
                            Err(e) => Err(e),
                        }
                    },
                    _ => Err(CompileError::UnsupportedConstruct(Box::new(value.duplicate()))),
                }
            },
            _ => Err(CompileError::UnsupportedConstruct(Box::new(ty.duplicate()))),
        }
    }

    /// Lower a variable assignment node.
    #[verifier::rlimit(100)]
    #[verifier::spinoff_prover]
    fn gen_assignment(&mut self, name: &String, value: &AstNode) -> (r: Result<(), CompileError>)
        ensures
            gen_frame_inv(*old(self), *final(self)),
            match r {
                Ok(()) => spec_gen(
                    SpecAst::VariableAssignment(name@, Box::new(value@)),
                    old(self).fun_name(),
                    final(self).names(),
                    old(self).names().len() as int,
                    old(self).arch_spec(),
                ) matches Ok(t) && final(self).section_writer@ == sec_add(
                    old(self).section_writer@,
                    t.0,
                ) && t.1 == final(self).fun_name() && t.2 == final(self).names().len() as int,
                Err(e) => spec_gen(
                    SpecAst::VariableAssignment(name@, Box::new(value@)),
                    old(self).fun_name(),
                    final(self).names(),
                    old(self).names().len() as int,
                    old(self).arch_spec(),
                ) == Err::<(SpecSections, Seq<char>, int), _>(e@),
            },
    {
        proof {
            assert(self.names().subrange(0, self.names().len() as int) =~= self.names());
        }
        let label = mangle_label(self.last_fun_name.as_str(), name.as_str());
        match value {
            AstNode::IBool(b) => {
                let val: usize = if *b {
                    1
                } else {
                    0
                };
                self.assign_num_variable(label.as_str(), val);
                Ok(())
            },
            AstNode::IChar(c) => {
                let val: usize = *c as usize;
                self.assign_num_variable(label.as_str(), val);
                Ok(())
            },
            AstNode::IInt8(v) => {
                let val: usize = #[verifier::truncate] (*v as usize);
                self.assign_num_variable(label.as_str(), val);
                Ok(())
            },
            AstNode::IInt16(v) => {
                let val: usize = #[verifier::truncate] (*v as usize);
                self.assign_num_variable(label.as_str(), val);
                Ok(())
            },
            AstNode::IInt32(v) => {
                let val: usize = #[verifier::truncate] (*v as usize);
                self.assign_num_variable(label.as_str(), val);
                Ok(())
            },
            _ => Err(CompileError::UnsupportedConstruct(Box::new(value.duplicate()))),
        }
    }

    /// Lower one AST node, appending its lines to the sections.
    #[verifier::rlimit(100)]
    #[verifier::spinoff_prover]
    fn generate(&mut self, ast: &AstNode) -> (r: Result<(), CompileError>)
        ensures
            gen_frame_inv(*old(self), *final(self)),
            match r {
                Ok(()) => spec_gen(
                    ast@,
                    old(self).fun_name(),
                    final(self).names(),
                    old(self).names().len() as int,
                    old(self).arch_spec(),
                ) matches Ok(t) && final(self).section_writer@ == sec_add(
                    old(self).section_writer@,
                    t.0,
                ) && t.1 == final(self).fun_name() && t.2 == final(self).names().len() as int,
                Err(e) => spec_gen(
                    ast@,
                    old(self).fun_name(),
                    final(self).names(),
                    old(self).names().len() as int,
                    old(self).arch_spec(),
                ) == Err::<(SpecSections, Seq<char>, int), _>(e@),
            },
        decreases *ast,
    {
        proof {
            assert(self.names().subrange(0, self.names().len() as int) =~= self.names());
        }
        match ast {
            AstNode::Program(stmts) => {
                proof {
                    crate::ast::lemma_view_asts_index(stmts@);
                }
                let r = self.gen_list_exec(stmts);
                proof {
                    assert(ast@ == SpecAst::Program(view_asts(stmts@)));
                }
                r
            },
            AstNode::FunctionDefinition(name, params, body) => {
                let fun2 = if crate::strutil::str_eq(name.as_str(), "main") {
                    "_start".to_owned()
                } else {
                    name.clone()
                };
                self.last_fun_name = fun2;
                let mut line = self.last_fun_name.clone();
                line.append(":");
                self.section_writer.push_text(line);
                let ghost mid1 = *self;
                proof {
                    crate::ast::lemma_view_asts_index(params@);
                    crate::ast::lemma_view_asts_index(body@);
                    assert(gen_frame_inv(*old(self), mid1)) by {
                        assert(self.names().subrange(0, old(self).names().len() as int)
                            =~= old(self).names());
                    }
                }
                match self.gen_list_exec(params) {
                    Ok(()) => {},
                    Err(e) => {
                        proof {
                            lemma_frame_inv_trans(*old(self), mid1, *self);
                        }
                        return Err(e);
                    },
                }
                let ghost mid2 = *self;
                let ghost t1 = spec_gen_list(
                    view_asts(params@),
                    0,
                    params@.len() as int,
                    mid1.fun_name(),
                    mid2.names(),
                    mid1.names().len() as int,
                    mid1.arch_spec(),
                )->Ok_0;
                match self.gen_list_exec(body) {
                    Ok(()) => {},
                    Err(e) => {
                        proof {
                            lemma_frame_inv_trans(*old(self), mid1, mid2);
                            lemma_frame_inv_trans(*old(self), mid2, *self);
                            lemma_gen_list_frame(
                                view_asts(params@),
                                0,
                                params@.len() as int,
                                mid1.fun_name(),
                                mid2.names(),
                                self.names(),
                                mid1.names().len() as int,
                                mid1.arch_spec(),
                            );
                        }
                        return Err(e);
                    },
                }
                proof {
                    lemma_frame_inv_trans(*old(self), mid1, mid2);
                    lemma_frame_inv_trans(*old(self), mid2, *self);
                    lemma_gen_list_frame(
                        view_asts(params@),
                        0,
                        params@.len() as int,
                        mid1.fun_name(),
                        mid2.names(),
                        self.names(),
                        mid1.names().len() as int,
                        mid1.arch_spec(),
                    );
                    let t2 = spec_gen_list(
                        view_asts(body@),
                        0,
                        body@.len() as int,
                        mid2.fun_name(),
                        self.names(),
                        mid2.names().len() as int,
                        mid1.arch_spec(),
                    )->Ok_0;
                    let head = sec_text(seq![mid1.fun_name() + ":"@]);
                    assert(mid1.section_writer@ == sec_add(old(self).section_writer@, head)) by {
                        assert(mid1.section_writer@.rodata =~= sec_add(
                            old(self).section_writer@,
                            head,
                        ).rodata);
                        assert(mid1.section_writer@.bss =~= sec_add(
                            old(self).section_writer@,
                            head,
                        ).bss);
                        assert(mid1.section_writer@.text =~= sec_add(
                            old(self).section_writer@,
                            head,
                        ).text);
                    }
                    lemma_sec_add_assoc(old(self).section_writer@, head, t1.0);
                    lemma_sec_add_assoc(sec_add(old(self).section_writer@, head), t1.0, t2.0);
                    lemma_sec_add_assoc(old(self).section_writer@, head, sec_add(t1.0, t2.0));
                }
                Ok(())
            },
            AstNode::Identifier(name, ty) => {
                match &**ty {
                    AstNode::Type(t, m) => {
                        let is_ty = match t {
                            Token::Bool | Token::Char | Token::Str | Token::Int8 | Token::Int16
                            | Token::Int32 => true,
                            _ => false,
                        };
                        if !is_ty {
                            proof {
                                assert(view_ast(**ty) == SpecAst::Type(t@, *m));
                                assert(ast@ == SpecAst::Identifier(
                                    name@,
                                    Box::new(SpecAst::Type(t@, *m)),
                                ));
                                assert(!is_type_keyword(t@));
                            }
                            return Err(
                                CompileError::UnsupportedConstruct(Box::new(ast.duplicate())),
                            );
                        }
                        proof {
                            assert(is_type_keyword(t@));
                        }
                        let label = mangle_label(self.last_fun_name.as_str(), name.as_str());
                        let size = crate::utils::get_bytes_from_type(t);
                        self.section_writer.declare_bss(label.as_str(), size);
                        proof {
                            let d = sec_bss(
                                seq![
                                    spec_lcomm_line(
                                        spec_mangle(old(self).fun_name(), name@),
                                        spec_type_size(t@),
                                    ),
                                ],
                            );
                            assert(self.section_writer@.rodata =~= sec_add(
                                old(self).section_writer@,
                                d,
                            ).rodata);
                            assert(self.section_writer@.bss =~= sec_add(
                                old(self).section_writer@,
                                d,
                            ).bss);
                            assert(self.section_writer@.text =~= sec_add(
                                old(self).section_writer@,
                                d,
                            ).text);
                        }
                        Ok(())
                    },
                    _ => Err(CompileError::UnsupportedConstruct(Box::new(ast.duplicate()))),
                }
            },
            AstNode::VariableDeclaration(name, value, ty) => {
                let r = self.gen_var_decl(name, value, ty);
                proof {
                    assert(ast@ == SpecAst::VariableDeclaration(
                        name@,
                        Box::new(view_ast(**value)),
                        Box::new(view_ast(**ty)),
                    ));
                }
                r
            },
            AstNode::VariableBufferDeclaration(name, ty) => {
                match &**ty {
                    AstNode::Type(t, m) => {
                        if !*m {
                            proof {
                                assert(view_ast(**ty) == SpecAst::Type(t@, *m));
                                assert(ast@ == SpecAst::VariableBufferDeclaration(
                                    name@,
                                    Box::new(SpecAst::Type(t@, *m)),
                                ));
                            }
                            return Err(
                                CompileError::UnsupportedConstruct(Box::new(ast.duplicate())),
                            );
                        }
                        let label = mangle_label(self.last_fun_name.as_str(), name.as_str());
                        match self.store_buffer(label.as_str(), t) {
                            Ok(()) => Ok(()),
                            Err(e) => Err(e),
                        }
                    },
                    _ => Err(CompileError::UnsupportedConstruct(Box::new(ty.duplicate()))),
                }
            },
            AstNode::VariableAssignment(name, value) => {
                let r = self.gen_assignment(name, value);
                proof {
                    assert(ast@ == SpecAst::VariableAssignment(name@, Box::new(view_ast(**value))));
                }
                r
            },
            AstNode::InlineAsm(lines) => {
                self.gen_inline_lines(lines);
                proof {
                    assert(ast@ == SpecAst::InlineAsm(view_strings(lines@)));
                }
                Ok(())
            },
            AstNode::Syscall(nm, inner) => {
                let r = self.gen_syscall(nm.as_str(), inner);
                match r {
                    Ok(()) => Ok(()),
                    Err(e) => Err(e),
                }
            },
            _ => Err(CompileError::UnsupportedConstruct(Box::new(ast.duplicate()))),
        }
    }

    /// Lower every node of a vector, in order.
    #[verifier::rlimit(100)]
    #[verifier::spinoff_prover]
    fn gen_list_exec(&mut self, nodes: &Vec<AstNode>) -> (r: Result<(), CompileError>)
        ensures
            gen_frame_inv(*old(self), *final(self)),
            match r {
                Ok(()) => spec_gen_list(
                    view_asts(nodes@),
                    0,
                    nodes@.len() as int,
                    old(self).fun_name(),
                    final(self).names(),
                    old(self).names().len() as int,
                    old(self).arch_spec(),
                ) matches Ok(t) && final(self).section_writer@ == sec_add(
                    old(self).section_writer@,
                    t.0,
                ) && t.1 == final(self).fun_name() && t.2 == final(self).names().len() as int,
                Err(e) => spec_gen_list(
                    view_asts(nodes@),
                    0,
                    nodes@.len() as int,
                    old(self).fun_name(),
                    final(self).names(),
                    old(self).names().len() as int,
                    old(self).arch_spec(),
                ) == Err::<(SpecSections, Seq<char>, int), _>(e@),
            },
        decreases nodes@,
    {
        let ghost nv = view_asts(nodes@);
        let ghost fun0 = self.fun_name();
        let ghost k0 = self.names().len() as int;
        let ghost sw0 = self.section_writer@;
        let ghost arch0 = self.arch_spec();
        proof {
            crate::ast::lemma_view_asts_index(nodes@);
            assert(self.names().subrange(0, self.names().len() as int) =~= self.names());
            lemma_sec_add_empty(sw0);
        }
        let mut j: usize = 0;
        while j < nodes.len()
            invariant
                j <= nodes.len(),
                nv == view_asts(nodes@),
                nv.len() == nodes@.len(),
                fun0 == old(self).fun_name(),
                k0 == old(self).names().len() as int,
                sw0 == old(self).section_writer@,
                arch0 == old(self).arch_spec(),
                gen_frame_inv(*old(self), *self),
                spec_gen_list(nv, 0, j as int, fun0, self.names(), k0, arch0) matches Ok(t)
                    && self.section_writer@ == sec_add(sw0, t.0) && t.1 == self.fun_name() && t.2
                    == self.names().len() as int,
            decreases nodes.len() - j,
        {
            let ghost pre = *self;
            let r = self.generate(&nodes[j]);
            match r {
                Ok(()) => {
                    proof {
                        crate::ast::lemma_view_asts_index(nodes@);
                        lemma_frame_inv_trans(*old(self), pre, *self);
                        lemma_step_ok(
                            nv,
                            j as int,
                            fun0,
                            k0,
                            arch0,
                            pre.names(),
                            self.names(),
                            sw0,
                            pre.section_writer@,
                            self.section_writer@,
                            pre.fun_name(),
                            self.fun_name(),
                        );
                    }
                    j += 1;
                },
                Err(e) => {
                    proof {
                        crate::ast::lemma_view_asts_index(nodes@);
                        lemma_frame_inv_trans(*old(self), pre, *self);
                        lemma_step_err(
                            nv,
                            j as int,
                            fun0,
                            k0,
                            arch0,
                            pre.names(),
                            self.names(),
                            pre.fun_name(),
                            e@,
                        );
                    }
                    return Err(e);
                },
            }
        }
        Ok(())
    }
}

/// Law: the text every syscall node emits ends with the store of the
/// call's result into the `syscall_ret_val` buffer, immediately after
/// the invocation; `exit` alone does not return, emits its single
/// invocation entry, and stores nothing.
pub proof fn lemma_syscall_ret_stored(
    arch: Architecture,
    nm: Seq<char>,
    inner: SpecAst,
    fun: Seq<char>,
    names: Seq<Seq<char>>,
    k: int,
)
    ensures
        spec_gen_syscall(arch, nm, inner, fun, names, k) matches Ok(t) ==> (nm != "exit"@ ==> t.0.text.len()
            == 2 && t.0.text.last() == spec_store_ret_entry()) && (nm == "exit"@ ==> t.0.text.len()
            == 1),
{
    reveal(spec_gen_syscall);
    crate::syscall_mapper::lemma_syscall_names_distinct();
}

/// Law: a variable declared inside a function appears in the emitted
/// declarations only under its mangled label `function_name`: the one
/// `.word` line of an immutable numeric variable carries it, as does
/// the one `.lcomm` line of a mutable one.
pub proof fn lemma_decl_label_mangled(
    name: Seq<char>,
    value: SpecAst,
    t: SpecToken,
    m: bool,
    fun: Seq<char>,
    names: Seq<Seq<char>>,
    k: int,
    arch: Architecture,
    v: nat,
)
    requires
        container_num_val(value) == Some(v),
    ensures
        spec_gen(
            SpecAst::VariableDeclaration(name, Box::new(value), Box::new(SpecAst::Type(t, m))),
            fun,
            names,
            k,
            arch,
        ) matches Ok(r) ==> if m {
            r.0.bss =~= seq![spec_lcomm_line(spec_mangle(fun, name), spec_type_size(t))]
        } else {
            r.0.rodata =~= seq![spec_word_line(spec_mangle(fun, name), spec_word_val(v))]
        },
{
}

/// Law: a function definition's first emitted text line is its label,
/// and the function named `main` is renamed to `_start`.
pub proof fn lemma_main_renamed(
    name: Seq<char>,
    params: Seq<SpecAst>,
    body: Seq<SpecAst>,
    fun: Seq<char>,
    names: Seq<Seq<char>>,
    k: int,
    arch: Architecture,
)
    ensures
        spec_gen(
            SpecAst::FunctionDefinition(name, params, body),
            fun,
            names,
            k,
            arch,
        ) matches Ok(r) ==> r.0.text.len() >= 1 && r.0.text[0] == (if name == "main"@ {
            "_start"@
        } else {
            name
        }) + ":"@,
{
}

/// No two entries of the sequence are equal.
pub open spec fn pairwise_distinct(s: Seq<Seq<char>>) -> bool {
    forall|i: int, j: int| 0 <= i < j < s.len() ==> s[i] != s[j]
}

/// Law: the synthetic labels one run uses are successive entries of its
/// drawn supply, so they are pairwise distinct whenever the supply is.
/// That the random supply itself collides only with negligible
/// probability is a property of the random source, not provable here.
pub proof fn lemma_fresh_labels_distinct(names: Seq<Seq<char>>, a: int, b: int)
    requires
        pairwise_distinct(names),
        0 <= a <= b <= names.len(),
    ensures
        pairwise_distinct(names.subrange(a, b)),
{
    assert forall|i: int, j: int|
        0 <= i < j < names.subrange(a, b).len() implies names.subrange(a, b)[i] != names.subrange(
        a,
        b,
    )[j] by {
        assert(names.subrange(a, b)[i] == names[a + i]);
        assert(names.subrange(a, b)[j] == names[a + j]);
    }
}

/// Lower a whole program for the given architecture: a generator whose
/// section writer holds exactly the lines `spec_gen` gives for the AST
/// and the synthetic labels the run drew.
pub fn generate(ast_nodes: &AstNode, arch: Architecture) -> (r: Result<Generator, CompileError>)
    ensures
        match r {
            Ok(g) => ({
                &&& g.arch_spec() == arch
                &&& spec_gen(ast_nodes@, Seq::<char>::empty(), g.names(), 0, arch) matches Ok(t)
                    && g.section_writer@ == sec_add(spec_initial_sections(), t.0) && t.1
                    == g.fun_name() && t.2 == g.names().len() as int
                &&& forall|i: int|
                    0 <= i < g.names().len() ==> is_fresh_name(#[trigger] g.names()[i])
            }),
            Err(e) => exists|names: Seq<Seq<char>>|
                spec_gen(ast_nodes@, Seq::<char>::empty(), names, 0, arch) == Err::<
                    (SpecSections, Seq<char>, int),
                    SpecCompileError,
                >(e@),
        },
{
    let mut g = Generator::new(arch);
    let r = g.generate(ast_nodes);
    match r {
        Ok(()) => Ok(g),
        Err(e) => {
            proof {
                assert(spec_gen(ast_nodes@, Seq::<char>::empty(), g.names(), 0, arch) == Err::<
                    (SpecSections, Seq<char>, int),
                    SpecCompileError,
                >(e@));
            }
            Err(e)
        },
    }
}

} // verus!

//! ARM32 GAS text builders: registers, syscall invocation sequences,
//! data declarations, and the final three-section assembly text.

use vstd::prelude::*;
use vstd::string::*;
use crate::ast::view_strings;
use crate::strutil::{fmt_u32, fmt_usize, spec_dec_nat};

verus! {

/// An ARM32 register.
#[derive(Debug, Clone)]
pub enum Register {
    R0,
    R1,
    R2,
    R3,
    R4,
    R5,
    R6,
    R7,
    R8,
    R9,
    R10,
    R11,
    R12,
    SP,
    LR,
    PC,
}

/// The assembly name of a register.
pub open spec fn spec_reg_str(r: Register) -> Seq<char> {
    match r {
        Register::R0 => "r0"@,
        Register::R1 => "r1"@,
        Register::R2 => "r2"@,
        Register::R3 => "r3"@,
        Register::R4 => "r4"@,
        Register::R5 => "r5"@,
        Register::R6 => "r6"@,
        Register::R7 => "r7"@,
        Register::R8 => "r8"@,
        Register::R9 => "r9"@,
        Register::R10 => "r10"@,
        Register::R11 => "r11"@,
        Register::R12 => "r12"@,
        Register::SP => "sp"@,
        Register::LR => "lr"@,
        Register::PC => "pc"@,
    }
}

impl Register {
    /// The register's assembly name.
    pub fn as_str(&self) -> (r: &'static str)
        ensures
            r@ == spec_reg_str(*self),
    {
        match self {
            Register::R0 => "r0",
            Register::R1 => "r1",
            Register::R2 => "r2",
            Register::R3 => "r3",
            Register::R4 => "r4",
            Register::R5 => "r5",
            Register::R6 => "r6",
            Register::R7 => "r7",
            Register::R8 => "r8",
            Register::R9 => "r9",
            Register::R10 => "r10",
            Register::R11 => "r11",
            Register::R12 => "r12",
            Register::SP => "sp",
            Register::LR => "lr",
            Register::PC => "pc",
        }
    }
}

/// Whether every character of the text is a decimal digit. The empty
/// text counts as all digits.
pub open spec fn all_dec_digits(s: Seq<char>) -> bool {
    forall|i: int| 0 <= i < s.len() ==> crate::tokenizer::is_dec_digit(s[i])
}

/// The instruction loading a value into a register: a numeric literal
/// is moved as an immediate, anything else is loaded as a label address.
pub open spec fn spec_into_register_load(value: Seq<char>, register: Seq<char>) -> Seq<char> {
    if all_dec_digits(value) {
        "mov "@ + register + ", #"@ + value
    } else {
        "ldr "@ + register + ", ="@ + value
    }
}

fn into_register_load(value: &str, register: &str) -> (r: String)
    ensures
        r@ == spec_into_register_load(value@, register@),
{
    let n = value.unicode_len();
    let mut j: usize = 0;
    let mut digits = true;
    while j < n
        invariant_except_break
            j <= n,
            n as int == value@.len(),
            digits,
            forall|i: int| 0 <= i < j as int ==> crate::tokenizer::is_dec_digit(value@[i]),
        ensures
            n as int == value@.len(),
            digits == all_dec_digits(value@),
        decreases n - j,
    {
        let c = value.get_char(j);
        if !(c >= '0' && c <= '9') {
            digits = false;
            proof {
                assert(!crate::tokenizer::is_dec_digit(value@[j as int]));
            }
            break;
        }
        j += 1;
    }
    if digits {
        let mut s = "mov ".to_owned();
        s.append(register);
        s.append(", #");
        s.append(value);
        s
    } else {
        let mut s = "ldr ".to_owned();
        s.append(register);
        s.append(", =");
        s.append(value);
        s
    }
}

/// The text entry invoking a syscall with three arguments in
/// `r0`, `r1`, `r2` and its number in `r7`.
pub open spec fn spec_syscall_3args(
    num: nat,
    arg0: Seq<char>,
    arg1: Seq<char>,
    arg2: Seq<char>,
) -> Seq<char> {
    "\tmov r7, #"@ + spec_dec_nat(num) + "\n\t"@ + spec_into_register_load(arg0, "r0"@) + "\n\t"@
        + spec_into_register_load(arg1, "r1"@) + "\n\t"@ + spec_into_register_load(arg2, "r2"@)
        + "\n\tsvc #0\n"@
}

pub fn syscall_3args(syscall_number: u32, arg0: &str, arg1: &str, arg2: &str) -> (r: String)
    ensures
        r@ == spec_syscall_3args(syscall_number as nat, arg0@, arg1@, arg2@),
{
    let mut s = "\tmov r7, #".to_owned();
    let num = fmt_u32(syscall_number);
    s.append(num.as_str());
    s.append("\n\t");
    let l0 = into_register_load(arg0, "r0");
    s.append(l0.as_str());
    s.append("\n\t");
    let l1 = into_register_load(arg1, "r1");
    s.append(l1.as_str());
    s.append("\n\t");
    let l2 = into_register_load(arg2, "r2");
    s.append(l2.as_str());
    s.append("\n\tsvc #0\n");
    s
}

/// The text entry invoking a syscall with two arguments.
pub open spec fn spec_syscall_2args(num: nat, arg0: Seq<char>, arg1: Seq<char>) -> Seq<char> {
    "\tmov r7, #"@ + spec_dec_nat(num) + "\n\t"@ + spec_into_register_load(arg0, "r0"@) + "\n\t"@
        + spec_into_register_load(arg1, "r1"@) + "\n\tsvc #0\n"@
}

pub fn syscall_2args(syscall_number: u32, arg0: &str, arg1: &str) -> (r: String)
    ensures
        r@ == spec_syscall_2args(syscall_number as nat, arg0@, arg1@),
{
    let mut s = "\tmov r7, #".to_owned();
    let num = fmt_u32(syscall_number);
    s.append(num.as_str());
    s.append("\n\t");
    let l0 = into_register_load(arg0, "r0");
    s.append(l0.as_str());
    s.append("\n\t");
    let l1 = into_register_load(arg1, "r1");
    s.append(l1.as_str());
    s.append("\n\tsvc #0\n");
    s
}

/// The text entry invoking a syscall with one argument.
pub open spec fn spec_syscall_1arg(num: nat, arg0: Seq<char>) -> Seq<char> {
    "\tmov r7, #"@ + spec_dec_nat(num) + "\n\t"@ + spec_into_register_load(arg0, "r0"@)
        + "\n\tsvc #0\n"@
}

pub fn syscall_1arg(syscall_number: u32, arg0: &str) -> (r: String)
    ensures
        r@ == spec_syscall_1arg(syscall_number as nat, arg0@),
{
    let mut s = "\tmov r7, #".to_owned();
    let num = fmt_u32(syscall_number);
    s.append(num.as_str());
    s.append("\n\t");
    let l0 = into_register_load(arg0, "r0");
    s.append(l0.as_str());
    s.append("\n\tsvc #0\n");
    s
}

/// A `mov` of an immediate into a register.
pub open spec fn spec_mov_imm(reg: Seq<char>, value: nat) -> Seq<char> {
    "\tmov "@ + reg + ", #"@ + spec_dec_nat(value)
}

pub fn mov_imm(reg: &str, value: usize) -> (r: String)
    ensures
        r@ == spec_mov_imm(reg@, value as nat),
{
    let mut s = "\tmov ".to_owned();
    s.append(reg);
    s.append(", #");
    let num = fmt_usize(value);
    s.append(num.as_str());
    s
}

/// An `ldr` of a label address into a register.
pub open spec fn spec_ldr_label(reg: Seq<char>, label: Seq<char>) -> Seq<char> {
    "\tldr "@ + reg + ", ="@ + label
}

pub fn ldr_label(reg: &str, label: &str) -> (r: String)
    ensures
        r@ == spec_ldr_label(reg@, label@),
{
    let mut s = "\tldr ".to_owned();
    s.append(reg);
    s.append(", =");
    s.append(label);
    s
}

/// A store of a register through the address in a numbered register.
pub fn store_into_reg(reg: &str, reg_to_store_in: usize) -> (r: String)
    ensures
        r@ == "\tstr "@ + reg@ + ", ["@ + spec_dec_nat(reg_to_store_in as nat) + "]\n"@,
{
    let mut s = "\tstr ".to_owned();
    s.append(reg);
    s.append(", [");
    let num = fmt_usize(reg_to_store_in);
    s.append(num.as_str());
    s.append("]\n");
    s
}

/// An assembly comment line.
pub fn comment(text: &str) -> (r: String)
    ensures
        r@ == "\t@ "@ + text@,
{
    let mut s = "\t@ ".to_owned();
    s.append(text);
    s
}

/// A `label: .asciz "value"` declaration.
pub fn declare_string(label: &str, value: &str) -> (r: String)
    ensures
        r@ == crate::section::spec_asciz_line(label@, value@),
{
    let mut s = label.to_owned();
    s.append(": .asciz \"");
    s.append(value);
    s.append("\"");
    s
}

/// A `label: .word value` declaration.
pub fn declare_word(label: &str, value: usize) -> (r: String)
    ensures
        r@ == label@ + ": .word "@ + spec_dec_nat(value as nat),
{
    let mut s = label.to_owned();
    s.append(": .word ");
    let num = fmt_usize(value);
    s.append(num.as_str());
    s
}

/// A `.lcomm label, size` reservation.
pub fn declare_lcomm(label: &str, size: usize) -> (r: String)
    ensures
        r@ == crate::section::spec_lcomm_line(label@, size as nat),
{
    let mut s = ".lcomm ".to_owned();
    s.append(label);
    s.append(", ");
    let num = fmt_usize(size);
    s.append(num.as_str());
    s
}

/// A `label_len = .-label` length definition.
pub fn define_len(label: &str) -> (r: String)
    ensures
        r@ == crate::section::spec_len_line(label@),
{
    let mut s = label.to_owned();
    s.append("_len = .-");
    s.append(label);
    s
}

/// The text entry storing `r0` into the syscall return buffer.
pub open spec fn spec_store_ret_entry() -> Seq<char> {
    "\t@ Store syscall return value\n\tldr r4, =syscall_ret_val\n\tstr r0, [r4]\n"@
}

/// Append the store of the syscall return value to the text lines.
pub fn store_syscall_return_value(text: &mut Vec<String>)
    ensures
        view_strings(final(text)@) =~= view_strings(old(text)@).push(spec_store_ret_entry()),
{
    text.push(
        "\t@ Store syscall return value\n\tldr r4, =syscall_ret_val\n\tstr r0, [r4]\n".to_owned(),
    );
}

/// Append the load of the syscall return value into `r5`.
pub fn load_syscall_return_value_into_reg(text: &mut Vec<String>)
    ensures
        view_strings(final(text)@) =~= view_strings(old(text)@).push(
            "\t@ Load syscall return value into r5\n\tldr r5, =syscall_ret_val"@,
        ).push("\tldr r5, [r5]\n"@),
{
    text.push("\t@ Load syscall return value into r5\n\tldr r5, =syscall_ret_val".to_owned());
    text.push("\tldr r5, [r5]\n".to_owned());
}

/// The first text entry copying the return buffer into `r0`.
pub open spec fn spec_load_ret_head(label: Seq<char>) -> Seq<char> {
    "\t@ Load syscall return value into "@ + label + "\n\tldr r5, =syscall_ret_val\n\tldr r0, [r5]\n"@
}

/// The second text entry storing `r0` under the label.
pub open spec fn spec_load_ret_store(label: Seq<char>) -> Seq<char> {
    "\tldr r5, ="@ + label + "\n\tstr r0, [r5]\n"@
}

/// Append the copy of the syscall return value into the named buffer.
pub fn load_syscall_return_value_into_label(text: &mut Vec<String>, label: &str)
    ensures
        view_strings(final(text)@) =~= view_strings(old(text)@).push(spec_load_ret_head(label@)).push(
            spec_load_ret_store(label@),
        ),
{
    let mut s = "\t@ Load syscall return value into ".to_owned();
    s.append(label);
    s.append("\n\tldr r5, =syscall_ret_val\n\tldr r0, [r5]\n");
    text.push(s);
    let mut s2 = "\tldr r5, =".to_owned();
    s2.append(label);
    s2.append("\n\tstr r0, [r5]\n");
    text.push(s2);
}

/// The `.rodata` and `.bss` items each on a tab-indented line, from
/// position `i` on.
pub open spec fn spec_cat_indented(lines: Seq<Seq<char>>, i: int) -> Seq<char>
    decreases lines.len() - i,
{
    if i < 0 || i >= lines.len() {
        Seq::empty()
    } else {
        "\t"@ + lines[i] + "\n"@ + spec_cat_indented(lines, i + 1)
    }
}

/// The `.text` items each on their own line, from position `i` on.
pub open spec fn spec_cat_plain(lines: Seq<Seq<char>>, i: int) -> Seq<char>
    decreases lines.len() - i,
{
    if i < 0 || i >= lines.len() {
        Seq::empty()
    } else {
        lines[i] + "\n"@ + spec_cat_plain(lines, i + 1)
    }
}

/// The complete assembly text: the `.rodata` lines, the `.bss` lines
/// after the `syscall_ret_val` common buffer, then the `.text` lines.
pub open spec fn spec_assembly(
    rodata: Seq<Seq<char>>,
    bss: Seq<Seq<char>>,
    text: Seq<Seq<char>>,
) -> Seq<char> {
    "\n.section .rodata\n"@ + spec_cat_indented(rodata, 0) + "\n.section .bss\n"@
        + "\t.comm syscall_ret_val, 4, 4\n"@ + spec_cat_indented(bss, 0) + "\n.section .text\n"@
        + spec_cat_plain(text, 0)
}

fn append_indented(out: &mut String, lines: &Vec<String>)
    ensures
        final(out)@ == old(out)@ + spec_cat_indented(view_strings(lines@), 0),
{
    let ghost lv = view_strings(lines@);
    let mut j: usize = 0;
    while j < lines.len()
        invariant
            j <= lines.len(),
            lv == view_strings(lines@),
            out@ + spec_cat_indented(lv, j as int) == old(out)@ + spec_cat_indented(lv, 0),
        decreases lines.len() - j,
    {
        let ghost before = out@;
        out.append("\t");
        out.append(lines[j].as_str());
        out.append("\n");
        j += 1;
        proof {
            assert(out@ =~= before + ("\t"@ + lv[j as int - 1] + "\n"@));
            assert(out@ + spec_cat_indented(lv, j as int) =~= before + spec_cat_indented(
                lv,
                j as int - 1,
            ));
        }
    }
    proof {
        assert(out@ + Seq::<char>::empty() =~= out@);
    }
}

fn append_plain(out: &mut String, lines: &Vec<String>)
    ensures
        final(out)@ == old(out)@ + spec_cat_plain(view_strings(lines@), 0),
{
    let ghost lv = view_strings(lines@);
    let mut j: usize = 0;
    while j < lines.len()
        invariant
            j <= lines.len(),
            lv == view_strings(lines@),
            out@ + spec_cat_plain(lv, j as int) == old(out)@ + spec_cat_plain(lv, 0),
        decreases lines.len() - j,
    {
        let ghost before = out@;
        out.append(lines[j].as_str());
        out.append("\n");
        j += 1;
        proof {
            assert(out@ =~= before + (lv[j as int - 1] + "\n"@));
            assert(out@ + spec_cat_plain(lv, j as int) =~= before + spec_cat_plain(
                lv,
                j as int - 1,
            ));
        }
    }
    proof {
        assert(out@ + Seq::<char>::empty() =~= out@);
    }
}

/// Assemble the three section line buffers into the final GAS text.
pub fn generate_assembly(rodata: Vec<String>, bss: Vec<String>, text: Vec<String>) -> (r: String)
    ensures
        r@ == spec_assembly(view_strings(rodata@), view_strings(bss@), view_strings(text@)),
{
    let mut out = "\n.section .rodata\n".to_owned();
    append_indented(&mut out, &rodata);
    out.append("\n.section .bss\n");
    out.append("\t.comm syscall_ret_val, 4, 4\n");
    append_indented(&mut out, &bss);
    out.append("\n.section .text\n");
    append_plain(&mut out, &text);
    out
}

} // verus!

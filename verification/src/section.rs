//! The generator's append-only owner of the `.rodata`, `.bss` and
//! `.text` line buffers.

use vstd::prelude::*;
use vstd::string::*;
use crate::ast::view_strings;
use crate::strutil::{fmt_i32, fmt_usize, spec_dec_int, spec_dec_nat};

verus! {

/// The mathematical form of the three section buffers.
pub struct SpecSections {
    pub rodata: Seq<Seq<char>>,
    pub bss: Seq<Seq<char>>,
    pub text: Seq<Seq<char>>,
}

/// No lines in any section.
pub open spec fn sec_empty() -> SpecSections {
    SpecSections { rodata: Seq::empty(), bss: Seq::empty(), text: Seq::empty() }
}

/// Both line sets, in order.
pub open spec fn sec_add(a: SpecSections, b: SpecSections) -> SpecSections {
    SpecSections {
        rodata: a.rodata + b.rodata,
        bss: a.bss + b.bss,
        text: a.text + b.text,
    }
}

/// Lines only in `.rodata`.
pub open spec fn sec_rodata(lines: Seq<Seq<char>>) -> SpecSections {
    SpecSections { rodata: lines, bss: Seq::empty(), text: Seq::empty() }
}

/// Lines only in `.bss`.
pub open spec fn sec_bss(lines: Seq<Seq<char>>) -> SpecSections {
    SpecSections { rodata: Seq::empty(), bss: lines, text: Seq::empty() }
}

/// Lines only in `.text`.
pub open spec fn sec_text(lines: Seq<Seq<char>>) -> SpecSections {
    SpecSections { rodata: Seq::empty(), bss: Seq::empty(), text: lines }
}

/// Adding section lines is associative.
pub proof fn lemma_sec_add_assoc(a: SpecSections, b: SpecSections, c: SpecSections)
    ensures
        sec_add(sec_add(a, b), c) == sec_add(a, sec_add(b, c)),
{
    assert((a.rodata + b.rodata) + c.rodata =~= a.rodata + (b.rodata + c.rodata));
    assert((a.bss + b.bss) + c.bss =~= a.bss + (b.bss + c.bss));
    assert((a.text + b.text) + c.text =~= a.text + (b.text + c.text));
}

/// The empty sections are the identity of `sec_add`.
pub proof fn lemma_sec_add_empty(a: SpecSections)
    ensures
        sec_add(a, sec_empty()) == a,
        sec_add(sec_empty(), a) == a,
{
    assert(a.rodata + Seq::<Seq<char>>::empty() =~= a.rodata);
    assert(a.bss + Seq::<Seq<char>>::empty() =~= a.bss);
    assert(a.text + Seq::<Seq<char>>::empty() =~= a.text);
    assert(Seq::<Seq<char>>::empty() + a.rodata =~= a.rodata);
    assert(Seq::<Seq<char>>::empty() + a.bss =~= a.bss);
    assert(Seq::<Seq<char>>::empty() + a.text =~= a.text);
}

/// A `.lcomm` reservation line.
pub open spec fn spec_lcomm_line(label: Seq<char>, size: nat) -> Seq<char> {
    ".lcomm "@ + label + ", "@ + spec_dec_nat(size)
}

/// A `.lcomm` reservation line with a signed size.
pub open spec fn spec_lcomm_line_int(label: Seq<char>, size: int) -> Seq<char> {
    ".lcomm "@ + label + ", "@ + spec_dec_int(size)
}

/// A `label_len = size` definition line.
pub open spec fn spec_len_eq_line(label: Seq<char>, size: int) -> Seq<char> {
    label + "_len = "@ + spec_dec_int(size)
}

/// A `label: .asciz "value"` line.
pub open spec fn spec_asciz_line(label: Seq<char>, value: Seq<char>) -> Seq<char> {
    label + ": .asciz \""@ + value + "\""@
}

/// A `label: .word value` line.
pub open spec fn spec_word_line(label: Seq<char>, value: int) -> Seq<char> {
    label + ": .word "@ + spec_dec_int(value)
}

/// A `label_len = .-label` length-sibling line.
pub open spec fn spec_len_line(label: Seq<char>) -> Seq<char> {
    label + "_len = .-"@ + label
}

/// The first `n` lines joined with single newlines between them.
pub open spec fn spec_join_pre(lines: Seq<Seq<char>>, n: int) -> Seq<char>
    decreases n,
{
    if n <= 0 || lines.len() == 0 {
        Seq::empty()
    } else if n == 1 {
        lines[0]
    } else {
        spec_join_pre(lines, n - 1) + "\n"@ + lines[n - 1]
    }
}

/// The one-string form of the three sections, each section present only
/// when it holds lines.
pub open spec fn spec_all_sections(s: SpecSections) -> Seq<char> {
    (if s.rodata.len() > 0 {
        ".section .rodata\n"@ + spec_join_pre(s.rodata, s.rodata.len() as int) + "\n\n"@
    } else {
        Seq::empty()
    }) + (if s.bss.len() > 0 {
        ".section .bss\n"@ + spec_join_pre(s.bss, s.bss.len() as int) + "\n\n"@
    } else {
        Seq::empty()
    }) + (if s.text.len() > 0 {
        ".section .text\n"@ + spec_join_pre(s.text, s.text.len() as int) + "\n"@
    } else {
        Seq::empty()
    })
}

fn append_joined(out: &mut String, lines: &Vec<String>)
    ensures
        final(out)@ == old(out)@ + spec_join_pre(view_strings(lines@), lines@.len() as int),
{
    let ghost lv = view_strings(lines@);
    let mut j: usize = 0;
    while j < lines.len()
        invariant
            j <= lines.len(),
            lv == view_strings(lines@),
            out@ == old(out)@ + spec_join_pre(lv, j as int),
        decreases lines.len() - j,
    {
        if j > 0 {
            out.append("\n");
        }
        out.append(lines[j].as_str());
        j += 1;
        proof {
            if j == 1 {
                assert(old(out)@ + Seq::<char>::empty() =~= old(out)@);
                assert(out@ =~= old(out)@ + spec_join_pre(lv, 1));
            } else {
                assert(out@ =~= old(out)@ + (spec_join_pre(lv, j as int - 1) + "\n"@ + lv[j as int
                    - 1]));
            }
        }
    }
    proof {
        if lines@.len() == 0 {
            assert(old(out)@ + Seq::<char>::empty() =~= old(out)@);
        }
    }
}

/// The append-only writer of the three output sections. A new writer's
/// text begins with the `.global _start` directive.
#[derive(Debug)]
pub struct SectionWriter {
    pub rodata: Vec<String>,
    pub bss: Vec<String>,
    pub text: Vec<String>,
}

impl View for SectionWriter {
    type V = SpecSections;

    open spec fn view(&self) -> SpecSections {
        SpecSections {
            rodata: view_strings(self.rodata@),
            bss: view_strings(self.bss@),
            text: view_strings(self.text@),
        }
    }
}

impl SectionWriter {
    pub fn new() -> (w: SectionWriter)
        ensures
            w@.rodata == Seq::<Seq<char>>::empty(),
            w@.bss == Seq::<Seq<char>>::empty(),
            w@.text =~= seq![".global _start"@],
    {
        let mut text: Vec<String> = Vec::new();
        text.push(".global _start".to_owned());
        let w = SectionWriter { rodata: Vec::new(), bss: Vec::new(), text };
        proof {
            assert(view_strings(w.rodata@) =~= Seq::<Seq<char>>::empty());
            assert(view_strings(w.bss@) =~= Seq::<Seq<char>>::empty());
        }
        w
    }

    /// Append one line to `.text`.
    pub fn push_text(&mut self, line: String)
        ensures
            final(self)@.text =~= old(self)@.text.push(line@),
            final(self)@.rodata == old(self)@.rodata,
            final(self)@.bss == old(self)@.bss,
    {
        self.text.push(line);
    }

    /// Append several lines to `.text`.
    pub fn push_text_lines(&mut self, lines: &Vec<String>)
        ensures
            final(self)@.text =~= old(self)@.text + view_strings(lines@),
            final(self)@.rodata == old(self)@.rodata,
            final(self)@.bss == old(self)@.bss,
    {
        let mut j: usize = 0;
        while j < lines.len()
            invariant
                j <= lines.len(),
                self@.rodata == old(self)@.rodata,
                self@.bss == old(self)@.bss,
                self@.text =~= old(self)@.text + view_strings(lines@.subrange(0, j as int)),
            decreases lines.len() - j,
        {
            let ghost before = self@.text;
            self.text.push(lines[j].clone());
            j += 1;
            proof {
                assert(view_strings(lines@.subrange(0, j as int)) =~= view_strings(
                    lines@.subrange(0, j as int - 1),
                ).push(lines@[j as int - 1]@));
                assert(old(self)@.text + view_strings(lines@.subrange(0, j as int)) =~= before.push(
                    lines@[j as int - 1]@,
                ));
            }
        }
        proof {
            assert(lines@.subrange(0, lines@.len() as int) =~= lines@);
        }
    }

    /// Reserve `size` bytes in `.bss` under `label`.
    pub fn declare_bss(&mut self, label: &str, size: usize)
        ensures
            final(self)@.bss =~= old(self)@.bss.push(spec_lcomm_line(label@, size as nat)),
            final(self)@.rodata == old(self)@.rodata,
            final(self)@.text == old(self)@.text,
    {
        let mut s = ".lcomm ".to_owned();
        s.append(label);
        s.append(", ");
        let num = fmt_usize(size);
        s.append(num.as_str());
        self.bss.push(s);
    }

    /// Reserve `size` bytes in `.bss` under `prefix_name`.
    pub fn declare_bss_with_name_prefix(&mut self, prefix: &str, name: &str, size: i32)
        ensures
            final(self)@.bss =~= old(self)@.bss.push(
                spec_lcomm_line_int(prefix@ + "_"@ + name@, size as int),
            ),
            final(self)@.rodata == old(self)@.rodata,
            final(self)@.text == old(self)@.text,
    {
        let mut s = ".lcomm ".to_owned();
        s.append(prefix);
        s.append("_");
        s.append(name);
        s.append(", ");
        let num = fmt_i32(size);
        s.append(num.as_str());
        proof {
            assert(s@ =~= spec_lcomm_line_int(prefix@ + "_"@ + name@, size as int));
        }
        self.bss.push(s);
    }

    /// Reserve `size` bytes in `.bss` under `label`, with a `label_len`
    /// definition beside it.
    pub fn declare_bss_with_len(&mut self, label: &str, size: i32)
        ensures
            final(self)@.bss =~= old(self)@.bss.push(spec_lcomm_line_int(label@, size as int)).push(
                spec_len_eq_line(label@, size as int),
            ),
            final(self)@.rodata == old(self)@.rodata,
            final(self)@.text == old(self)@.text,
    {
        let mut s = ".lcomm ".to_owned();
        s.append(label);
        s.append(", ");
        let num = fmt_i32(size);
        s.append(num.as_str());
        self.bss.push(s);
        let mut s2 = label.to_owned();
        s2.append("_len = ");
        s2.append(num.as_str());
        self.bss.push(s2);
    }

    /// Emit `label: .asciz "value"` in `.rodata`.
    pub fn push_rodata_str(&mut self, label: &str, value: &str)
        ensures
            final(self)@.rodata =~= old(self)@.rodata.push(spec_asciz_line(label@, value@)),
            final(self)@.bss == old(self)@.bss,
            final(self)@.text == old(self)@.text,
    {
        let mut s = label.to_owned();
        s.append(": .asciz \"");
        s.append(value);
        s.append("\"");
        self.rodata.push(s);
    }

    /// Emit `label: .word value` in `.rodata`.
    pub fn push_rodata_word(&mut self, label: &str, value: i32)
        ensures
            final(self)@.rodata =~= old(self)@.rodata.push(spec_word_line(label@, value as int)),
            final(self)@.bss == old(self)@.bss,
            final(self)@.text == old(self)@.text,
    {
        let mut s = label.to_owned();
        s.append(": .word ");
        let num = fmt_i32(value);
        s.append(num.as_str());
        self.rodata.push(s);
    }

    /// The one-string form of what has been written so far: each
    /// non-empty section under its header.
    pub fn all_sections(&self) -> (r: String)
        ensures
            r@ == spec_all_sections(self@),
    {
        let mut out = String::new();
        if self.rodata.len() > 0 {
            out.append(".section .rodata\n");
            append_joined(&mut out, &self.rodata);
            out.append("\n\n");
        }
        let ghost part1 = out@;
        if self.bss.len() > 0 {
            out.append(".section .bss\n");
            append_joined(&mut out, &self.bss);
            out.append("\n\n");
        }
        let ghost part2 = out@;
        if self.text.len() > 0 {
            out.append(".section .text\n");
            append_joined(&mut out, &self.text);
            out.append("\n");
        }
        proof {
            assert(out@ =~= spec_all_sections(self@));
        }
        out
    }

    /// Emit `label: .asciz "value"` with its `label_len = .-label`
    /// sibling in `.rodata`.
    pub fn push_rodata_str_with_len(&mut self, label: &str, value: &str)
        ensures
            final(self)@.rodata =~= old(self)@.rodata.push(spec_asciz_line(label@, value@)).push(
                spec_len_line(label@),
            ),
            final(self)@.bss == old(self)@.bss,
            final(self)@.text == old(self)@.text,
    {
        let mut s = label.to_owned();
        s.append(": .asciz \"");
        s.append(value);
        s.append("\"");
        self.rodata.push(s);
        let mut s2 = label.to_owned();
        s2.append("_len = .-");
        s2.append(label);
        self.rodata.push(s2);
    }
}

} // verus!

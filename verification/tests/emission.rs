use comfyc::arm32::{
    comment, declare_lcomm, declare_string, declare_word, define_len, generate_assembly, ldr_label,
    mov_imm, store_into_reg, syscall_1arg, syscall_2args, syscall_3args, Register,
};
use comfyc::ast::AstNode;
use comfyc::errors::CompileError;
use comfyc::generator::generate;
use comfyc::parser::parse;
use comfyc::section::SectionWriter;
use comfyc::strutil::{fmt_i32, fmt_u32, fmt_u64, fmt_usize};
use comfyc::syscall_mapper::{architecture_from_name, get_syscall_num, Architecture};
use comfyc::tokenizer::{tokenize, Token};
use comfyc::utils::{generate_str_varname, get_bytes_from_type};

fn gen(src: &str) -> comfyc::generator::Generator {
    generate(&parse(tokenize(src).unwrap()).unwrap(), Architecture::Arm32).unwrap()
}

#[test]
fn write_with_variable_fd_dereferences_it() {
    let g = gen("fn main(){ int32 fd = 1; $write(fd, \"x\"); }");
    let text = g.section_writer.text.join("\n");
    assert!(text.contains("ldr r0, =_start_fd\n\tldr r0, [r0]"));
}

#[test]
fn exit_identifier_is_mangled() {
    let g = gen("fn main(){ int8 x = 5; $exit(x); }");
    let text = g.section_writer.text.join("\n");
    assert!(text.contains("ldr r0, =_start_x"));
}

#[test]
fn every_returning_syscall_stores_its_result() {
    let g = gen(
        "fn main(){ mut str buf; $write(1, \"a\"); $read(0, buf); $open(\"f\", 0, 0); $sysinfo(buf); $exit(0); }",
    );
    let text = g.section_writer.text.join("\n");
    let stores = text.matches("@ Store syscall return value").count();
    assert_eq!(stores, 4);
    let exits = text.matches("mov r7, #1\n").count();
    assert_eq!(exits, 1);
    assert!(!text.ends_with("@ Store syscall return value\n\tldr r4, =syscall_ret_val\n\tstr r0, [r4]\n\n"));
}

#[test]
fn syscall_numbers_reach_r7() {
    let g = gen("fn main(){ mut str b; $read(0, b); $sysinfo(b); $exit(0); }");
    let text = g.section_writer.text.join("\n");
    assert!(text.contains("mov r7, #3"));
    assert!(text.contains("mov r7, #143"));
    assert!(text.contains("mov r7, #1"));
}

#[test]
fn syscall_initializer_reserves_and_copies() {
    let g = gen("fn main(){ int32 fd = $open(\"f\", 0, 0); $exit(0); }");
    assert!(g.section_writer.bss.iter().any(|l| l == ".lcomm _start_fd, 4"));
    let text = g.section_writer.text.join("\n");
    assert!(text.contains("mov r7, #5"));
    assert!(text.contains("ldr r5, =syscall_ret_val"));
    assert!(text.contains("ldr r5, =_start_fd\n\tstr r0, [r5]"));
}

#[test]
fn parameters_reserve_storage_by_width() {
    let g = gen("fn f(int8 a, int16 b, int32 c, str s){ }");
    let bss = &g.section_writer.bss;
    assert!(bss.iter().any(|l| l == ".lcomm f_a, 1"));
    assert!(bss.iter().any(|l| l == ".lcomm f_b, 2"));
    assert!(bss.iter().any(|l| l == ".lcomm f_c, 4"));
    assert!(bss.iter().any(|l| l == ".lcomm f_s, 4"));
}

#[test]
fn declarations_emit_in_source_order() {
    let g = gen("fn main(){ int8 a = 1; int8 b = 2; str s = \"x\"; }");
    let rodata = &g.section_writer.rodata;
    assert_eq!(rodata[0], "_start_a: .word 1");
    assert_eq!(rodata[1], "_start_b: .word 2");
    assert_eq!(rodata[2], "_start_s: .asciz \"x\"");
    assert_eq!(rodata[3], "_start_s_len = .-_start_s");
}

#[test]
fn booleans_and_chars_store_as_numbers() {
    let g = gen("fn main(){ bool t = true; bool f = false; char c = 'A'; }");
    let rodata = &g.section_writer.rodata;
    assert_eq!(rodata[0], "_start_t: .word 1");
    assert_eq!(rodata[1], "_start_f: .word 0");
    assert_eq!(rodata[2], "_start_c: .word 65");
}

#[test]
fn inline_assembly_is_marked_and_indented() {
    let g = gen("fn main(){ asm { \"nop\" }; }");
    let text = &g.section_writer.text;
    assert!(text.iter().any(|l| l == "\t@ ===Inline Assembly==="));
    assert!(text.iter().any(|l| l == "\tnop"));
    assert!(text.iter().any(|l| l == "\t@ =====================\n"));
}

#[test]
fn immutable_buffer_is_unsupported() {
    let ast = parse(tokenize("fn main(){ int32 buf; }").unwrap()).unwrap();
    assert!(matches!(
        generate(&ast, Architecture::Arm32),
        Err(CompileError::UnsupportedConstruct(_))
    ));
}

#[test]
fn mutable_string_is_rejected_at_generation() {
    let ast = parse(tokenize("fn main(){ mut str s = \"x\"; }").unwrap()).unwrap();
    assert!(matches!(
        generate(&ast, Architecture::Arm32),
        Err(CompileError::UnsupportedConstruct(_))
    ));
}

#[test]
fn string_assignment_is_rejected_at_generation() {
    let ast = parse(tokenize("fn main(){ s = \"x\"; }").unwrap()).unwrap();
    assert!(matches!(
        generate(&ast, Architecture::Arm32),
        Err(CompileError::UnsupportedConstruct(_))
    ));
}

#[test]
fn other_architectures_have_no_backend() {
    let ast = parse(tokenize("fn main(){ $exit(0); }").unwrap()).unwrap();
    match generate(&ast, Architecture::Arm64) {
        Err(CompileError::UnknownArchitecture(name)) => assert_eq!(name, "arm64"),
        other => panic!("expected an unknown architecture, got {:?}", other),
    }
}

#[test]
fn syscall_node_with_unknown_name_is_fatal() {
    let ast = AstNode::Program(vec![AstNode::Syscall(
        "fork".to_string(),
        Box::new(AstNode::Exit(Token::Int8Container(0))),
    )]);
    match generate(&ast, Architecture::Arm32) {
        Err(CompileError::UnknownSyscall(name)) => assert_eq!(name, "fork"),
        other => panic!("expected an unknown syscall, got {:?}", other),
    }
}

#[test]
fn nonempty_program_without_main_keeps_its_name() {
    let g = gen("fn start(){ $exit(0); }");
    assert_eq!(g.section_writer.text[0], ".global _start");
    assert_eq!(g.section_writer.text[1], "start:");
}

#[test]
fn assembly_layout_has_three_sections_in_order() {
    let emitted = generate_assembly(
        vec!["r1".to_string()],
        vec!["b1".to_string()],
        vec!["t1".to_string()],
    );
    assert_eq!(
        emitted,
        "\n.section .rodata\n\tr1\n\n.section .bss\n\t.comm syscall_ret_val, 4, 4\n\tb1\n\n.section .text\nt1\n"
    );
}

#[test]
fn instruction_formatters() {
    assert_eq!(syscall_1arg(1, "0"), "\tmov r7, #1\n\tmov r0, #0\n\tsvc #0\n");
    assert_eq!(
        syscall_2args(3, "0", "buf"),
        "\tmov r7, #3\n\tmov r0, #0\n\tldr r1, =buf\n\tsvc #0\n"
    );
    assert_eq!(
        syscall_3args(4, "1", "lbl", "lbl_len"),
        "\tmov r7, #4\n\tmov r0, #1\n\tldr r1, =lbl\n\tldr r2, =lbl_len\n\tsvc #0\n"
    );
    assert_eq!(mov_imm("r0", 7), "\tmov r0, #7");
    assert_eq!(ldr_label("r1", "x"), "\tldr r1, =x");
    assert_eq!(store_into_reg("r0", 1), "\tstr r0, [1]\n");
    assert_eq!(comment("hello"), "\t@ hello");
    assert_eq!(declare_string("s", "v"), "s: .asciz \"v\"");
    assert_eq!(declare_word("w", 9), "w: .word 9");
    assert_eq!(declare_lcomm("l", 4), ".lcomm l, 4");
    assert_eq!(define_len("l"), "l_len = .-l");
    assert_eq!(Register::R7.as_str(), "r7");
    assert_eq!(Register::SP.as_str(), "sp");
}

#[test]
fn section_writer_helpers() {
    let mut w = SectionWriter::new();
    assert_eq!(w.text, vec![".global _start".to_string()]);
    w.push_text("a".to_string());
    w.push_text_lines(&vec!["b".to_string(), "c".to_string()]);
    assert_eq!(w.text, vec![".global _start", "a", "b", "c"]);
    w.declare_bss("x", 4);
    w.declare_bss_with_name_prefix("f", "y", 2);
    w.declare_bss_with_len("z", 8);
    assert_eq!(w.bss, vec![".lcomm x, 4", ".lcomm f_y, 2", ".lcomm z, 8", "z_len = 8"]);
    w.push_rodata_str("s", "v");
    w.push_rodata_word("w", -5);
    w.push_rodata_str_with_len("t", "u");
    assert_eq!(
        w.rodata,
        vec!["s: .asciz \"v\"", "w: .word -5", "t: .asciz \"u\"", "t_len = .-t"]
    );
}

#[test]
fn decimal_formatting() {
    assert_eq!(fmt_u64(0), "0");
    assert_eq!(fmt_u64(143), "143");
    assert_eq!(fmt_u32(4), "4");
    assert_eq!(fmt_usize(65), "65");
    assert_eq!(fmt_i32(-5), "-5");
    assert_eq!(fmt_i32(2147483647), "2147483647");
    assert_eq!(fmt_i32(-2147483648), "-2147483648");
}

#[test]
fn syscall_table_rows() {
    assert_eq!(get_syscall_num(Architecture::Arm32, "exit"), Some(1));
    assert_eq!(get_syscall_num(Architecture::Arm32, "read"), Some(3));
    assert_eq!(get_syscall_num(Architecture::Arm32, "write"), Some(4));
    assert_eq!(get_syscall_num(Architecture::Arm32, "open"), Some(5));
    assert_eq!(get_syscall_num(Architecture::Arm32, "sysinfo"), Some(143));
    assert_eq!(get_syscall_num(Architecture::Arm32, "fork"), None);
}

#[test]
fn architecture_names_round_trip() {
    assert_eq!(architecture_from_name("arm32"), Some(Architecture::Arm32));
    assert_eq!(architecture_from_name("arm64"), Some(Architecture::Arm64));
    assert_eq!(architecture_from_name("x86"), Some(Architecture::X86));
    assert_eq!(architecture_from_name("x86_64"), Some(Architecture::X86_64));
    assert_eq!(architecture_from_name("mips"), None);
}

#[test]
fn type_widths_in_bytes() {
    assert_eq!(get_bytes_from_type(&Token::Bool), 1);
    assert_eq!(get_bytes_from_type(&Token::Char), 1);
    assert_eq!(get_bytes_from_type(&Token::Int8), 1);
    assert_eq!(get_bytes_from_type(&Token::Int16), 2);
    assert_eq!(get_bytes_from_type(&Token::Int32), 4);
    assert_eq!(get_bytes_from_type(&Token::Str), 4);
}

#[test]
fn fresh_names_have_the_synthetic_shape() {
    let a = generate_str_varname();
    assert_eq!(a.len(), 12);
    assert!(a.starts_with("str_"));
    assert!(a[4..].chars().all(|c| c.is_ascii_alphanumeric()));
}

#[test]
fn drawn_names_are_recorded_in_order() {
    let ast = parse(tokenize("fn main(){ $write(1, \"a\"); $write(1, \"b\"); }").unwrap()).unwrap();
    let g = generate(&ast, Architecture::Arm32).unwrap();
    let names = g.drawn_names();
    assert_eq!(names.len(), 2);
    let line0 = format!("{}: .asciz \"a\"", names[0]);
    let line1 = format!("{}: .asciz \"b\"", names[1]);
    assert_eq!(g.section_writer.rodata[0], line0);
    assert_eq!(g.section_writer.rodata[2], line1);
}

#[test]
fn all_sections_skips_empty_parts() {
    let mut w = SectionWriter::new();
    assert_eq!(w.all_sections(), ".section .text\n.global _start\n");
    w.push_rodata_word("x", 3);
    w.push_text("a".to_string());
    assert_eq!(
        w.all_sections(),
        ".section .rodata\nx: .word 3\n\n.section .text\n.global _start\na\n"
    );
}

#[test]
fn return_value_copy_helpers() {
    let mut text: Vec<String> = Vec::new();
    comfyc::arm32::store_syscall_return_value(&mut text);
    comfyc::arm32::load_syscall_return_value_into_reg(&mut text);
    comfyc::arm32::load_syscall_return_value_into_label(&mut text, "dst");
    assert_eq!(
        text[0],
        "\t@ Store syscall return value\n\tldr r4, =syscall_ret_val\n\tstr r0, [r4]\n"
    );
    assert_eq!(text[1], "\t@ Load syscall return value into r5\n\tldr r5, =syscall_ret_val");
    assert_eq!(text[2], "\tldr r5, [r5]\n");
    assert_eq!(
        text[3],
        "\t@ Load syscall return value into dst\n\tldr r5, =syscall_ret_val\n\tldr r0, [r5]\n"
    );
    assert_eq!(text[4], "\tldr r5, =dst\n\tstr r0, [r5]\n");
}

#[test]
fn numeric_pool_names_have_the_synthetic_shape() {
    let a = comfyc::utils::_generate_num_varname();
    assert_eq!(a.len(), 12);
    assert!(a.starts_with("int_"));
}

#[test]
fn config_map_newest_entry_wins() {
    let mut m = comfyc::config::ConfigMap::new();
    m.insert("K".to_string(), "old".to_string());
    m.insert("K".to_string(), "new".to_string());
    assert_eq!(m.get("K"), Some("new".to_string()));
    assert_eq!(m.get("other"), None);
}

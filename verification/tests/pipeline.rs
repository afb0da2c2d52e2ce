use comfyc::config::ConfigMap;
use comfyc::errors::CompileError;
use comfyc::generator::generate;
use comfyc::arm32::generate_assembly;
use comfyc::parser::parse;
use comfyc::preprocessor::{preprocess_file, FileMap};
use comfyc::syscall_mapper::Architecture;
use comfyc::tokenizer::tokenize;

fn compile(src: &str) -> String {
    let tokens = tokenize(src).unwrap();
    let ast = parse(tokens).unwrap();
    let g = generate(&ast, Architecture::Arm32).unwrap();
    generate_assembly(g.section_writer.rodata, g.section_writer.bss, g.section_writer.text)
}

#[test]
fn exit_zero_program() {
    let emitted = compile("fn main(){ $exit(0); }");
    assert!(emitted.contains("_start:"));
    assert!(emitted.contains("mov r7, #1"));
    assert!(emitted.contains("mov r0, #0"));
    assert!(emitted.contains("svc #0"));
    assert!(emitted.contains("\t.comm syscall_ret_val, 4, 4\n"));
    assert!(emitted.contains(".section .bss"));
}

#[test]
fn write_string_literal_pools_fresh_label() {
    let src = "fn main(){ $write(1,\"hi\"); $exit(0); }";
    let tokens = tokenize(src).unwrap();
    let ast = parse(tokens).unwrap();
    let g = generate(&ast, Architecture::Arm32).unwrap();
    let rodata = g.section_writer.rodata.clone();
    let asciz: Vec<&String> = rodata.iter().filter(|l| l.contains(": .asciz \"hi\"")).collect();
    assert_eq!(asciz.len(), 1);
    let label: &str = asciz[0].split(':').next().unwrap();
    assert!(label.starts_with("str_"));
    assert_eq!(label.len(), 12);
    assert!(label[4..].chars().all(|c| c.is_ascii_alphanumeric()));
    let sibling = format!("{}_len = .-{}", label, label);
    assert!(rodata.iter().any(|l| l == &sibling));
    let emitted = generate_assembly(g.section_writer.rodata, g.section_writer.bss, g.section_writer.text);
    assert!(emitted.contains("mov r7, #4"));
    assert!(emitted.contains("mov r0, #1"));
    assert!(emitted.contains(&format!("ldr r2, ={}_len", label)));
}

#[test]
fn immutable_int_is_rodata_word() {
    let emitted = compile("fn main(){ int8 x = 5; $exit(x); }");
    assert!(emitted.contains("_start_x: .word 5"));
    assert!(emitted.contains("mov r7, #1"));
    assert!(emitted.contains("ldr r0, =_start_x"));
    assert!(emitted.contains("svc #0"));
}

#[test]
fn mutable_int_is_bss_and_assignment_stores() {
    let emitted = compile("fn main(){ mut int32 x = 0; x = 7; $exit(x); }");
    assert!(emitted.contains(".lcomm _start_x, 4"));
    assert!(emitted.contains("mov r0, #7"));
    assert!(emitted.contains("str r0, [r1]"));
    assert!(emitted.contains("ldr r1, =_start_x"));
    assert!(emitted.contains("mov r7, #1"));
}

#[test]
fn conditional_compilation_picks_active_branch() {
    let mut fs = FileMap::new();
    fs.insert(
        "main.c".to_string(),
        "#if ARCH==\"arm32\"\nfn main(){$exit(0);}\n#else\nfn main(){$exit(1);}\n#endif\n"
            .to_string(),
    );
    let mut config = ConfigMap::new();
    config.insert("ARCH".to_string(), "arm32".to_string());
    let dirs: Vec<String> = Vec::new();
    let text = preprocess_file("main.c", &dirs, &config, &fs).unwrap();
    assert_eq!(text, "fn main(){$exit(0);}\n");
    let emitted = compile(&text);
    assert!(emitted.contains("mov r0, #0"));
    assert!(!emitted.contains("mov r0, #1\n"));
}

#[test]
fn conditional_compilation_else_branch() {
    let mut fs = FileMap::new();
    fs.insert(
        "main.c".to_string(),
        "#if ARCH==\"arm32\"\na\n#else\nb\n#endif\n".to_string(),
    );
    let mut config = ConfigMap::new();
    config.insert("ARCH".to_string(), "x86".to_string());
    let dirs: Vec<String> = Vec::new();
    let text = preprocess_file("main.c", &dirs, &config, &fs).unwrap();
    assert_eq!(text, "b\n");
}

#[test]
fn circular_include_is_fatal() {
    let mut fs = FileMap::new();
    fs.insert("a.c".to_string(), "#include<\"b.c\">\n".to_string());
    fs.insert("b.c".to_string(), "#include<\"a.c\">\n".to_string());
    let dirs: Vec<String> = Vec::new();
    let config = ConfigMap::new();
    let r = preprocess_file("a.c", &dirs, &config, &fs);
    match r {
        Err(CompileError::CircularInclude(p)) => assert_eq!(p, "a.c"),
        other => panic!("expected a circular include error, got {:?}", other),
    }
}

#[test]
fn preprocess_without_directives_is_identity() {
    let mut fs = FileMap::new();
    fs.insert("m.c".to_string(), "fn main(){\n$exit(0);\n}".to_string());
    let dirs: Vec<String> = Vec::new();
    let config = ConfigMap::new();
    let text = preprocess_file("m.c", &dirs, &config, &fs).unwrap();
    assert_eq!(text, "fn main(){\n$exit(0);\n}\n");
}

#[test]
fn user_include_prefers_current_directory() {
    let mut fs = FileMap::new();
    fs.insert("src/a.c".to_string(), "#include<\"lib.c\">\n".to_string());
    fs.insert("src/lib.c".to_string(), "one\n".to_string());
    fs.insert("other/lib.c".to_string(), "two\n".to_string());
    let dirs: Vec<String> = vec!["other".to_string()];
    let config = ConfigMap::new();
    let text = preprocess_file("src/a.c", &dirs, &config, &fs).unwrap();
    assert_eq!(text, "one\n");
}

#[test]
fn user_include_falls_back_to_search_dirs() {
    let mut fs = FileMap::new();
    fs.insert("src/a.c".to_string(), "#include<\"lib.c\">\n".to_string());
    fs.insert("other/lib.c".to_string(), "two\n".to_string());
    let dirs: Vec<String> = vec!["other".to_string()];
    let config = ConfigMap::new();
    let text = preprocess_file("src/a.c", &dirs, &config, &fs).unwrap();
    assert_eq!(text, "two\n");
}

#[test]
fn unresolved_include_reports_candidates() {
    let mut fs = FileMap::new();
    fs.insert("src/a.c".to_string(), "#include<\"lib.c\">\n".to_string());
    let dirs: Vec<String> = vec!["other".to_string()];
    let config = ConfigMap::new();
    match preprocess_file("src/a.c", &dirs, &config, &fs) {
        Err(CompileError::UnresolvedInclude(name, cands)) => {
            assert_eq!(name, "lib.c");
            assert_eq!(cands, vec!["src/lib.c".to_string(), "other/lib.c".to_string()]);
        },
        other => panic!("expected an unresolved include, got {:?}", other),
    }
}

#[test]
fn system_include_uses_fixed_path() {
    let mut fs = FileMap::new();
    fs.insert("a.c".to_string(), "#include<io.h>\n".to_string());
    fs.insert("/usr/include/comfylang/io.h".to_string(), "sys\n".to_string());
    let dirs: Vec<String> = Vec::new();
    let config = ConfigMap::new();
    let text = preprocess_file("a.c", &dirs, &config, &fs).unwrap();
    assert_eq!(text, "sys\n");
}

#[test]
fn missing_system_include_is_io_error() {
    let mut fs = FileMap::new();
    fs.insert("a.c".to_string(), "#include<io.h>\n".to_string());
    let dirs: Vec<String> = Vec::new();
    let config = ConfigMap::new();
    match preprocess_file("a.c", &dirs, &config, &fs) {
        Err(CompileError::IoError(p)) => assert_eq!(p, "/usr/include/comfylang/io.h"),
        other => panic!("expected a read failure, got {:?}", other),
    }
}

#[test]
fn stray_endif_is_fatal() {
    let mut fs = FileMap::new();
    fs.insert("a.c".to_string(), "#endif\n".to_string());
    let dirs: Vec<String> = Vec::new();
    let config = ConfigMap::new();
    assert!(matches!(
        preprocess_file("a.c", &dirs, &config, &fs),
        Err(CompileError::UnmatchedConditional)
    ));
}

#[test]
fn stray_else_is_fatal() {
    let mut fs = FileMap::new();
    fs.insert("a.c".to_string(), "#else\n".to_string());
    let dirs: Vec<String> = Vec::new();
    let config = ConfigMap::new();
    assert!(matches!(
        preprocess_file("a.c", &dirs, &config, &fs),
        Err(CompileError::UnmatchedConditional)
    ));
}

#[test]
fn unclosed_if_is_fatal() {
    let mut fs = FileMap::new();
    fs.insert("a.c".to_string(), "#if X\nline\n".to_string());
    let dirs: Vec<String> = Vec::new();
    let config = ConfigMap::new();
    assert!(matches!(
        preprocess_file("a.c", &dirs, &config, &fs),
        Err(CompileError::UnmatchedConditional)
    ));
}

#[test]
fn bare_key_condition_needs_true_or_one() {
    let mut fs = FileMap::new();
    fs.insert("a.c".to_string(), "#if DEBUG\nyes\n#endif\nrest\n".to_string());
    let dirs: Vec<String> = Vec::new();
    let mut config = ConfigMap::new();
    config.insert("DEBUG".to_string(), "1".to_string());
    let text = preprocess_file("a.c", &dirs, &config, &fs).unwrap();
    assert_eq!(text, "yes\nrest\n");
    let mut config2 = ConfigMap::new();
    config2.insert("DEBUG".to_string(), "off".to_string());
    let text2 = preprocess_file("a.c", &dirs, &config2, &fs).unwrap();
    assert_eq!(text2, "rest\n");
}

#[test]
fn not_equal_condition_holds_when_missing() {
    let mut fs = FileMap::new();
    fs.insert("a.c".to_string(), "#if ARCH!=\"arm32\"\nother\n#endif\n".to_string());
    let dirs: Vec<String> = Vec::new();
    let config = ConfigMap::new();
    let text = preprocess_file("a.c", &dirs, &config, &fs).unwrap();
    assert_eq!(text, "other\n");
}

#[test]
fn nested_conditionals_respect_outer_flag() {
    let mut fs = FileMap::new();
    fs.insert(
        "a.c".to_string(),
        "#if A\n#if B\ninner\n#endif\nouter\n#endif\nalways\n".to_string(),
    );
    let dirs: Vec<String> = Vec::new();
    let mut config = ConfigMap::new();
    config.insert("A".to_string(), "false".to_string());
    config.insert("B".to_string(), "true".to_string());
    let text = preprocess_file("a.c", &dirs, &config, &fs).unwrap();
    assert_eq!(text, "always\n");
}

pub mod arm32;
pub mod ast;
pub mod config;
pub mod errors;
pub mod generator;
pub mod parser;
pub mod preprocessor;
pub mod section;
pub mod strutil;
pub mod syscall_mapper;
pub mod syscalls;
pub mod tokenizer;
pub mod utils;

//! Target architectures and the syscall number table.

use vstd::prelude::*;
use vstd::string::*;
use crate::strutil::str_eq;

verus! {

/// A target architecture. Only ARM32 has a back end.
#[derive(Debug, Clone, Copy, PartialEq, Eq, Structural)]
pub enum Architecture {
    Arm32,
    Arm64,
    X86,
    X86_64,
}

/// The name an architecture goes by in configuration files.
pub open spec fn spec_arch_name(a: Architecture) -> Seq<char> {
    match a {
        Architecture::Arm32 => "arm32"@,
        Architecture::Arm64 => "arm64"@,
        Architecture::X86 => "x86"@,
        Architecture::X86_64 => "x86_64"@,
    }
}

/// The name an architecture goes by.
pub fn arch_name(a: Architecture) -> (r: String)
    ensures
        r@ == spec_arch_name(a),
{
    match a {
        Architecture::Arm32 => "arm32".to_owned(),
        Architecture::Arm64 => "arm64".to_owned(),
        Architecture::X86 => "x86".to_owned(),
        Architecture::X86_64 => "x86_64".to_owned(),
    }
}

/// The architecture a configuration name denotes.
pub fn architecture_from_name(name: &str) -> (r: Option<Architecture>)
    ensures
        match r {
            Some(a) => spec_arch_name(a) == name@,
            None => name@ != "arm32"@ && name@ != "arm64"@ && name@ != "x86"@ && name@
                != "x86_64"@,
        },
{
    if str_eq(name, "arm32") {
        Some(Architecture::Arm32)
    } else if str_eq(name, "arm64") {
        Some(Architecture::Arm64)
    } else if str_eq(name, "x86") {
        Some(Architecture::X86)
    } else if str_eq(name, "x86_64") {
        Some(Architecture::X86_64)
    } else {
        None
    }
}

/// The ARM32 EABI syscall numbers of the supported calls.
pub open spec fn spec_syscall_num(name: Seq<char>) -> Option<u32> {
    if name == "exit"@ {
        Some(1u32)
    } else if name == "read"@ {
        Some(3u32)
    } else if name == "write"@ {
        Some(4u32)
    } else if name == "open"@ {
        Some(5u32)
    } else if name == "sysinfo"@ {
        Some(143u32)
    } else {
        None
    }
}

/// The table rows of `spec_syscall_num`, with the name literals told
/// apart.
pub proof fn lemma_syscall_num_values()
    ensures
        spec_syscall_num("exit"@) == Some(1u32),
        spec_syscall_num("read"@) == Some(3u32),
        spec_syscall_num("write"@) == Some(4u32),
        spec_syscall_num("open"@) == Some(5u32),
        spec_syscall_num("sysinfo"@) == Some(143u32),
{
    lemma_syscall_names_distinct();
}

/// The five syscall names are pairwise distinct.
pub proof fn lemma_syscall_names_distinct()
    ensures
        "write"@ != "read"@,
        "write"@ != "exit"@,
        "write"@ != "open"@,
        "write"@ != "sysinfo"@,
        "read"@ != "exit"@,
        "read"@ != "open"@,
        "read"@ != "sysinfo"@,
        "exit"@ != "open"@,
        "exit"@ != "sysinfo"@,
        "open"@ != "sysinfo"@,
{
    reveal_strlit("exit");
    reveal_strlit("read");
    reveal_strlit("write");
    reveal_strlit("open");
    reveal_strlit("sysinfo");
    assert("read"@[0] != "exit"@[0]);
    assert("read"@[0] != "open"@[0]);
    assert("exit"@[0] != "open"@[0]);
    assert("write"@.len() != "sysinfo"@.len());
}

/// The syscall number of a named call on the given architecture.
/// Only ARM32 has a table.
pub fn get_syscall_num(arch: Architecture, name: &str) -> (r: Option<u32>)
    requires
        arch is Arm32,
    ensures
        r == spec_syscall_num(name@),
{
    if str_eq(name, "exit") {
        Some(1)
    } else if str_eq(name, "read") {
        Some(3)
    } else if str_eq(name, "write") {
        Some(4)
    } else if str_eq(name, "open") {
        Some(5)
    } else if str_eq(name, "sysinfo") {
        Some(143)
    } else {
        None
    }
}

/// The syscall number of a call known to be in the table.
pub fn get_syscall_num_or_panic(arch: Architecture, name: &str) -> (r: u32)
    requires
        arch is Arm32,
        spec_syscall_num(name@) is Some,
    ensures
        Some(r) == spec_syscall_num(name@),
{
    match get_syscall_num(arch, name) {
        Some(n) => n,
        None => {
            proof {
                assert(false);
            }
            0
        },
    }
}

} // verus!

//! From a build target to the architecture name that Debian uses.

use vstd::prelude::*;
use crate::text::{chars_of, ends_with, find_first, find_last, first_index, last_index, starts_with, str_eq};

verus! {

/// The architecture of a target: what stands before its first `-`.
pub open spec fn arch_part(target: Seq<char>) -> Seq<char> {
    target.subrange(0, first_index(target, '-'))
}

/// The ABI of a target: what stands after its last `-`, or nothing where
/// it has no `-`.
pub open spec fn abi_part(target: Seq<char>) -> Seq<char> {
    if last_index(target, '-') < 0 {
        Seq::empty()
    } else {
        target.subrange(last_index(target, '-') + 1, target.len() as int)
    }
}

/// Debian's name for an architecture and ABI. The first line that applies
/// decides; an architecture that no line knows keeps its name.
pub open spec fn debian_arch(arch: Seq<char>, abi: Seq<char>) -> Seq<char> {
    if arch == "aarch64"@ {
        "arm64"@
    } else if arch == "mips64"@ && abi == "gnuabin32"@ {
        "mipsn32"@
    } else if arch == "mips64el"@ && abi == "gnuabin32"@ {
        "mipsn32el"@
    } else if arch == "mipsisa32r6"@ {
        "mipsr6"@
    } else if arch == "mipsisa32r6el"@ {
        "mipsr6el"@
    } else if arch == "mipsisa64r6"@ && abi == "gnuabi64"@ {
        "mips64r6"@
    } else if arch == "mipsisa64r6"@ && abi == "gnuabin32"@ {
        "mipsn32r6"@
    } else if arch == "mipsisa64r6el"@ && abi == "gnuabi64"@ {
        "mips64r6el"@
    } else if arch == "mipsisa64r6el"@ && abi == "gnuabin32"@ {
        "mipsn32r6el"@
    } else if arch == "powerpc"@ && abi == "gnuspe"@ {
        "powerpcspe"@
    } else if arch == "powerpc64"@ {
        "ppc64"@
    } else if arch == "powerpc64le"@ {
        "ppc64el"@
    } else if arch == "i586"@ || arch == "i686"@ || arch == "x86"@ {
        "i386"@
    } else if arch == "x86_64"@ && abi == "gnux32"@ {
        "x32"@
    } else if arch == "x86_64"@ {
        "amd64"@
    } else if "arm"@.is_prefix_of(arch) && "hf"@.is_suffix_of(abi) {
        "armhf"@
    } else if "arm"@.is_prefix_of(arch) {
        "armel"@
    } else {
        arch
    }
}

/// Debian's architecture name for a target triple or a bare architecture.
pub open spec fn get_arch_spec(target: Seq<char>) -> Seq<char> {
    debian_arch(arch_part(target), abi_part(target))
}

/// Debian's architecture name for `target`, a target triple or a bare
/// architecture name.
pub fn get_arch(target: &str) -> (tag: String)
    ensures
        tag@ == get_arch_spec(target@),
{
    let chars = chars_of(target);
    let dash: usize = find_first(&chars, '-');
    let arch: &str = target.substring_char(0, dash);
    let empty = String::new();
    let abi: &str = match find_last(&chars, '-') {
        Some(last) => target.substring_char(last + 1, chars.len()),
        None => {
            assert(empty@ =~= Seq::<char>::empty());
            empty.as_str()
        },
    };
    assert(arch@ == arch_part(target@));
    assert(abi@ == abi_part(target@));
    if str_eq(arch, "aarch64") {
        String::from_str("arm64")
    } else if str_eq(arch, "mips64") && str_eq(abi, "gnuabin32") {
        String::from_str("mipsn32")
    } else if str_eq(arch, "mips64el") && str_eq(abi, "gnuabin32") {
        String::from_str("mipsn32el")
    } else if str_eq(arch, "mipsisa32r6") {
        String::from_str("mipsr6")
    } else if str_eq(arch, "mipsisa32r6el") {
        String::from_str("mipsr6el")
    } else if str_eq(arch, "mipsisa64r6") && str_eq(abi, "gnuabi64") {
        String::from_str("mips64r6")
    } else if str_eq(arch, "mipsisa64r6") && str_eq(abi, "gnuabin32") {
        String::from_str("mipsn32r6")
    } else if str_eq(arch, "mipsisa64r6el") && str_eq(abi, "gnuabi64") {
        String::from_str("mips64r6el")
    } else if str_eq(arch, "mipsisa64r6el") && str_eq(abi, "gnuabin32") {
        String::from_str("mipsn32r6el")
    } else if str_eq(arch, "powerpc") && str_eq(abi, "gnuspe") {
        String::from_str("powerpcspe")
    } else if str_eq(arch, "powerpc64") {
        String::from_str("ppc64")
    } else if str_eq(arch, "powerpc64le") {
        String::from_str("ppc64el")
    } else if str_eq(arch, "i586") || str_eq(arch, "i686") || str_eq(arch, "x86") {
        String::from_str("i386")
    } else if str_eq(arch, "x86_64") && str_eq(abi, "gnux32") {
        String::from_str("x32")
    } else if str_eq(arch, "x86_64") {
        String::from_str("amd64")
    } else if starts_with(arch, "arm") && ends_with(abi, "hf") {
        String::from_str("armhf")
    } else if starts_with(arch, "arm") {
        String::from_str("armel")
    } else {
        String::from_str(arch)
    }
}

} // verus!

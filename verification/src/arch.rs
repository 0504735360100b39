//! The OHOS target architectures and the names each one goes by: the Rust
//! target triple, the C target, the ABI directory and the form used in
//! cargo's environment variables.

use vstd::prelude::*;

verus! {

broadcast use vstd::string::group_string_axioms;

/// A target architecture that OHOS native libraries are built for.
#[derive(Debug, Clone, Copy, PartialEq, Eq, Structural)]
pub enum Arch {
    ARM64,
    ARM32,
    X86_64,
    LoongArch64,
}

/// The Rust target triple of an architecture.
pub open spec fn rust_target_of(arch: Arch) -> Seq<char> {
    match arch {
        Arch::ARM64 => "aarch64-unknown-linux-ohos"@,
        Arch::ARM32 => "armv7-unknown-linux-ohos"@,
        Arch::X86_64 => "x86_64-unknown-linux-ohos"@,
        Arch::LoongArch64 => "loongarch64-unknown-linux-ohos"@,
    }
}

/// The target that clang and the NDK sysroot use for an architecture.
pub open spec fn c_target_of(arch: Arch) -> Seq<char> {
    match arch {
        Arch::ARM64 => "aarch64-linux-ohos"@,
        Arch::ARM32 => "arm-linux-ohos"@,
        Arch::X86_64 => "x86_64-linux-ohos"@,
        Arch::LoongArch64 => "loongarch64-linux-ohos"@,
    }
}

/// The ABI directory name that HarmonyOS packages use for an architecture.
pub open spec fn abi_name_of(arch: Arch) -> Seq<char> {
    match arch {
        Arch::ARM64 => "arm64-v8a"@,
        Arch::ARM32 => "armeabi-v7a"@,
        Arch::X86_64 => "x86_64"@,
        Arch::LoongArch64 => "loongarch64"@,
    }
}

/// The Rust target triple in the upper-case, underscore form that cargo
/// uses in variables such as `CARGO_TARGET_<TRIPLE>_LINKER`.
pub open spec fn rust_link_target_of(arch: Arch) -> Seq<char> {
    match arch {
        Arch::ARM64 => "AARCH64_UNKNOWN_LINUX_OHOS"@,
        Arch::ARM32 => "ARMV7_UNKNOWN_LINUX_OHOS"@,
        Arch::X86_64 => "X86_64_UNKNOWN_LINUX_OHOS"@,
        Arch::LoongArch64 => "LOONGARCH64_UNKNOWN_LINUX_OHOS"@,
    }
}

/// The architecture that a command-line name stands for, if any.
pub open spec fn arch_named(name: Seq<char>) -> Option<Arch> {
    if name == "arm64"@ || name == "aarch"@ || name == "aarch64"@ || name == rust_target_of(
        Arch::ARM64,
    ) {
        Some(Arch::ARM64)
    } else if name == "arm"@ || name == "arm32"@ || name == "armv7"@ || name == rust_target_of(
        Arch::ARM32,
    ) {
        Some(Arch::ARM32)
    } else if name == "x86_64"@ || name == "x64"@ || name == rust_target_of(Arch::X86_64) {
        Some(Arch::X86_64)
    } else if name == "loongarch64"@ || name == rust_target_of(Arch::LoongArch64) {
        Some(Arch::LoongArch64)
    } else {
        None
    }
}

impl Arch {
    /// The Rust target triple, such as `aarch64-unknown-linux-ohos`.
    pub fn rust_target(&self) -> (s: &'static str)
        ensures
            s@ == rust_target_of(*self),
    {
        match self {
            Arch::ARM64 => "aarch64-unknown-linux-ohos",
            Arch::ARM32 => "armv7-unknown-linux-ohos",
            Arch::X86_64 => "x86_64-unknown-linux-ohos",
            Arch::LoongArch64 => "loongarch64-unknown-linux-ohos",
        }
    }

    /// The clang target, such as `aarch64-linux-ohos`.
    pub fn c_target(&self) -> (s: &'static str)
        ensures
            s@ == c_target_of(*self),
    {
        match self {
            Arch::ARM64 => "aarch64-linux-ohos",
            Arch::ARM32 => "arm-linux-ohos",
            Arch::X86_64 => "x86_64-linux-ohos",
            Arch::LoongArch64 => "loongarch64-linux-ohos",
        }
    }

    /// The ABI directory name, such as `arm64-v8a`.
    pub fn to_arch(&self) -> (s: &'static str)
        ensures
            s@ == abi_name_of(*self),
    {
        match self {
            Arch::ARM64 => "arm64-v8a",
            Arch::ARM32 => "armeabi-v7a",
            Arch::X86_64 => "x86_64",
            Arch::LoongArch64 => "loongarch64",
        }
    }

    /// The target triple in cargo's environment-variable form, such as
    /// `AARCH64_UNKNOWN_LINUX_OHOS`.
    pub fn rust_link_target(&self) -> (s: &'static str)
        ensures
            s@ == rust_link_target_of(*self),
    {
        match self {
            Arch::ARM64 => "AARCH64_UNKNOWN_LINUX_OHOS",
            Arch::ARM32 => "ARMV7_UNKNOWN_LINUX_OHOS",
            Arch::X86_64 => "X86_64_UNKNOWN_LINUX_OHOS",
            Arch::LoongArch64 => "LOONGARCH64_UNKNOWN_LINUX_OHOS",
        }
    }

    /// Reads an architecture from its command-line name (`arm64`/`aarch`,
    /// `arm`/`arm32`, `x86_64`/`x64`, `loongarch64`) or its Rust target
    /// triple.
    pub fn parse(name: &str) -> (r: Option<Arch>)
        ensures
            r == arch_named(name@),
    {
        let t = name.to_owned();
        if t == "arm64".to_owned() || t == "aarch".to_owned() || t == "aarch64".to_owned()
            || t == "aarch64-unknown-linux-ohos".to_owned() {
            Some(Arch::ARM64)
        } else if t == "arm".to_owned() || t == "arm32".to_owned() || t == "armv7".to_owned()
            || t == "armv7-unknown-linux-ohos".to_owned() {
            Some(Arch::ARM32)
        } else if t == "x86_64".to_owned() || t == "x64".to_owned() || t
            == "x86_64-unknown-linux-ohos".to_owned() {
            Some(Arch::X86_64)
        } else if t == "loongarch64".to_owned() || t == "loongarch64-unknown-linux-ohos".to_owned() {
            Some(Arch::LoongArch64)
        } else {
            None
        }
    }
}

/// The message given when a name stands for no architecture.
pub open spec fn unsupported_architecture_message(name: Seq<char>) -> Seq<char> {
    "Unsupported architecture: "@ + name
}

impl std::str::FromStr for Arch {
    type Err = String;

    fn from_str(s: &str) -> (r: Result<Arch, String>)
        ensures
            match r {
                Ok(a) => arch_named(s@) == Some(a),
                Err(m) => arch_named(s@) is None && m@ == unsupported_architecture_message(s@),
            },
    {
        match Arch::parse(s) {
            Some(a) => Ok(a),
            None => Err("Unsupported architecture: ".to_owned().concat(s)),
        }
    }
}

/// The names that `ohrs build --arch` accepts.
pub open spec fn valid_arch_names() -> Seq<Seq<char>> {
    seq!["aarch"@, "arm"@, "x64"@]
}

/// The message given for an architecture name that is not accepted.
pub open spec fn unsupported_arch_message(value: Seq<char>) -> Seq<char> {
    value + " is not supported, just support: aarch arm x64"@
}

/// Checks an `--arch` value against the accepted names `aarch`, `arm` and
/// `x64`, giving the value back or the message that refuses it.
pub fn validate_arch(value: &str) -> (r: Result<String, String>)
    ensures
        r is Ok <==> valid_arch_names().contains(value@),
        r matches Ok(s) ==> s@ == value@,
        r matches Err(m) ==> m@ == unsupported_arch_message(value@),
{
    let v = value.to_owned();
    let ok = v == "aarch".to_owned() || v == "arm".to_owned() || v == "x64".to_owned();
    proof {
        assert(valid_arch_names()[0] == "aarch"@);
        assert(valid_arch_names()[1] == "arm"@);
        assert(valid_arch_names()[2] == "x64"@);
        assert(valid_arch_names().contains(value@) <==> (value@ == "aarch"@ || value@ == "arm"@
            || value@ == "x64"@));
    }
    if ok {
        Ok(v)
    } else {
        Err(v.concat(" is not supported, just support: aarch arm x64"))
    }
}

} // verus!

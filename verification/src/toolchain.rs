//! The NDK toolchain: where its tools live, where the HarmonyOS NDK keeps
//! its headers and libraries, and the flags and variables that point a
//! native build at them.

use vstd::prelude::*;
use crate::arch::Arch;
use crate::envmap::EnvMap;
use crate::paths::{join_path, parent_of};

verus! {

broadcast use vstd::string::group_string_axioms;

/// The tools of an LLVM toolchain and its two directories.
pub struct ToolchainPaths {
    pub ranlib: String,
    pub ar: String,
    pub cc: String,
    pub cxx: String,
    pub llvm_as: String,
    pub ld: String,
    pub strip: String,
    pub objdump: String,
    pub objcopy: String,
    pub nm: String,
    pub readobj: String,
    pub bin_dir: String,
    pub lib_dir: String,
}

/// Where the HarmonyOS NDK keeps its headers and the architecture's
/// libraries, each when it exists.
pub struct HmsPaths {
    pub include_dir: Option<String>,
    pub lib: Option<String>,
}

/// `<root>/bin`.
pub open spec fn bin_dir_of(root: Seq<char>) -> Seq<char> {
    crate::paths::path_join(root, "bin"@)
}

/// `<root>/bin/<name>`.
pub open spec fn tool_of(root: Seq<char>, name: Seq<char>) -> Seq<char> {
    crate::paths::path_join(bin_dir_of(root), name)
}

/// The toolchain under `root`: each tool in `root/bin`, and the two
/// directories `root/bin` and `root/lib`.
pub fn resolve_toolchain_paths(root: &str) -> (r: ToolchainPaths)
    ensures
        r.ranlib@ == tool_of(root@, "llvm-ranlib"@),
        r.ar@ == tool_of(root@, "llvm-ar"@),
        r.cc@ == tool_of(root@, "clang"@),
        r.cxx@ == tool_of(root@, "clang++"@),
        r.llvm_as@ == tool_of(root@, "llvm-as"@),
        r.ld@ == tool_of(root@, "ld.lld"@),
        r.strip@ == tool_of(root@, "llvm-strip"@),
        r.objdump@ == tool_of(root@, "llvm-objdump"@),
        r.objcopy@ == tool_of(root@, "llvm-objcopy"@),
        r.nm@ == tool_of(root@, "llvm-nm"@),
        r.readobj@ == tool_of(root@, "llvm-readobj"@),
        r.bin_dir@ == bin_dir_of(root@),
        r.lib_dir@ == crate::paths::path_join(root@, "lib"@),
{
    let bin = join_path(root, "bin");
    let lib = join_path(root, "lib");
    ToolchainPaths {
        ranlib: join_path(bin.as_str(), "llvm-ranlib"),
        ar: join_path(bin.as_str(), "llvm-ar"),
        cc: join_path(bin.as_str(), "clang"),
        cxx: join_path(bin.as_str(), "clang++"),
        llvm_as: join_path(bin.as_str(), "llvm-as"),
        ld: join_path(bin.as_str(), "ld.lld"),
        strip: join_path(bin.as_str(), "llvm-strip"),
        objdump: join_path(bin.as_str(), "llvm-objdump"),
        objcopy: join_path(bin.as_str(), "llvm-objcopy"),
        nm: join_path(bin.as_str(), "llvm-nm"),
        readobj: join_path(bin.as_str(), "llvm-readobj"),
        bin_dir: bin,
        lib_dir: lib,
    }
}

/// `<hos_ndk>/native/sysroot/usr`.
pub open spec fn hms_usr_dir(hos_ndk: Seq<char>) -> Seq<char> {
    crate::paths::path_join(
        crate::paths::path_join(crate::paths::path_join(hos_ndk, "native"@), "sysroot"@),
        "usr"@,
    )
}

/// `<hos_ndk>/native/sysroot/usr/include`.
pub open spec fn hms_include_dir(hos_ndk: Seq<char>) -> Seq<char> {
    crate::paths::path_join(hms_usr_dir(hos_ndk), "include"@)
}

/// `<hos_ndk>/native/sysroot/usr/lib/<c target>`.
pub open spec fn hms_lib_dir(hos_ndk: Seq<char>, arch: Arch) -> Seq<char> {
    crate::paths::path_join(
        crate::paths::path_join(hms_usr_dir(hos_ndk), "lib"@),
        crate::arch::c_target_of(arch),
    )
}

fn usr_dir(hos_ndk: &str) -> (r: String)
    ensures
        r@ == hms_usr_dir(hos_ndk@),
{
    let a = join_path(hos_ndk, "native");
    let b = join_path(a.as_str(), "sysroot");
    join_path(b.as_str(), "usr")
}

/// The HarmonyOS NDK's header directory (see `hms_include_dir`).
pub fn hms_include_dir_of(hos_ndk: &str) -> (r: String)
    ensures
        r@ == hms_include_dir(hos_ndk@),
{
    let usr = usr_dir(hos_ndk);
    join_path(usr.as_str(), "include")
}

/// The HarmonyOS NDK's library directory for `arch` (see `hms_lib_dir`).
pub fn hms_lib_dir_of(hos_ndk: &str, arch: Arch) -> (r: String)
    ensures
        r@ == hms_lib_dir(hos_ndk@, arch),
{
    let usr = usr_dir(hos_ndk);
    let lib = join_path(usr.as_str(), "lib");
    join_path(lib.as_str(), arch.c_target())
}

/// The HarmonyOS NDK's directories for `arch`.  No NDK (an empty path)
/// gives neither; otherwise each directory is given when the file system
/// reported that it exists (`include_exists` for `hms_include_dir`,
/// `lib_exists` for `hms_lib_dir`).
pub fn resolve_hms_paths(hos_ndk: &str, arch: Arch, include_exists: bool, lib_exists: bool) -> (r:
    HmsPaths)
    ensures
        hos_ndk@.len() == 0 ==> r.include_dir is None && r.lib is None,
        hos_ndk@.len() > 0 ==> match r.include_dir {
            Some(d) => include_exists && d@ == hms_include_dir(hos_ndk@),
            None => !include_exists,
        },
        hos_ndk@.len() > 0 ==> match r.lib {
            Some(d) => lib_exists && d@ == hms_lib_dir(hos_ndk@, arch),
            None => !lib_exists,
        },
{
    if hos_ndk.unicode_len() == 0 {
        return HmsPaths { include_dir: None, lib: None };
    }
    let include_dir = if include_exists {
        Some(hms_include_dir_of(hos_ndk))
    } else {
        None
    };
    let lib = if lib_exists {
        Some(hms_lib_dir_of(hos_ndk, arch))
    } else {
        None
    };
    HmsPaths { include_dir, lib }
}

/// The link flags that point the linker at the HarmonyOS NDK's libraries.
pub open spec fn hms_link_flags(lib: Option<Seq<char>>) -> Seq<Seq<char>> {
    match lib {
        Some(l) => seq!["-L"@ + l, "-Wl,-rpath-link,"@ + l],
        None => Seq::<Seq<char>>::empty(),
    }
}

/// Adds `-L<lib>` and `-Wl,-rpath-link,<lib>` when the HarmonyOS NDK has
/// a library directory; otherwise leaves the flags as they are.
pub fn append_hms_link_flags(base_flags: &mut Vec<String>, hms_paths: &HmsPaths)
    ensures
        crate::text::string_views(final(base_flags)@) == crate::text::string_views(old(base_flags)@)
            + hms_link_flags(
            match hms_paths.lib {
                Some(l) => Some(l@),
                None => None,
            },
        ),
{
    let ghost before = crate::text::string_views(base_flags@);
    match &hms_paths.lib {
        Some(lib) => {
            base_flags.push("-L".to_owned().concat(lib.as_str()));
            base_flags.push("-Wl,-rpath-link,".to_owned().concat(lib.as_str()));
            assert(crate::text::string_views(base_flags@) =~= before + hms_link_flags(Some(lib@)));
        },
        None => {
            assert(crate::text::string_views(base_flags@) =~= before + hms_link_flags(None));
        },
    }
}

/// What a variable holds in `env`, the empty string when it is not set.
pub open spec fn env_value(env: Map<Seq<char>, Seq<char>>, key: Seq<char>) -> Seq<char> {
    if env.contains_key(key) {
        env[key]
    } else {
        Seq::<char>::empty()
    }
}

/// A flag appended to what a variable already holds, with a space between
/// them unless it held nothing.
pub open spec fn merged_flag(current: Seq<char>, append: Seq<char>) -> Seq<char> {
    if current.len() == 0 {
        append
    } else {
        current + " "@ + append
    }
}

/// Sets `key` in `prepare_env` to what the process environment holds for
/// it with `append` added (see `merged_flag`).
pub fn append_env_with_flag(prepare_env: &mut EnvMap, process_env: &EnvMap, key: &str, append: &str)
    requires
        old(prepare_env).wf(),
        process_env.wf(),
    ensures
        final(prepare_env).wf(),
        final(prepare_env)@ == old(prepare_env)@.insert(
            key@,
            merged_flag(env_value(process_env@, key@), append@),
        ),
{
    let current = match process_env.get(key) {
        Some(v) => v,
        None => String::new(),
    };
    let merged = if current.unicode_len() == 0 {
        append.to_owned()
    } else {
        current.concat(" ").concat(append)
    };
    prepare_env.insert(key.to_owned(), merged);
}

/// `s` with every `from` replaced by `to`.
pub open spec fn replace_char(s: Seq<char>, from: char, to: char) -> Seq<char> {
    s.map_values(|c: char| if c == from {
        to
    } else {
        c
    })
}

/// `s` with every `from` replaced by `to` (`str::replace` with a character
/// pattern and a one-character replacement).
pub fn replace_char_in(s: &str, from: char, to: char) -> (r: String)
    ensures
        r@ == replace_char(s@, from, to),
{
    let v = crate::text::chars_of(s);
    let mut out: Vec<char> = Vec::new();
    let mut i: usize = 0;
    while i < v.len()
        invariant
            i <= v@.len(),
            v@ == s@,
            out@ == replace_char(s@, from, to).subrange(0, i as int),
        decreases v@.len() - i,
    {
        let c = v[i];
        if c == from {
            out.push(to);
        } else {
            out.push(c);
        }
        i = i + 1;
        assert(out@ =~= replace_char(s@, from, to).subrange(0, i as int));
    }
    assert(replace_char(s@, from, to).subrange(0, v@.len() as int) =~= replace_char(s@, from, to));
    crate::text::string_of(out.as_slice())
}

/// What `str::to_uppercase` gives for `s`: each character replaced by its
/// Unicode uppercase mapping.
pub uninterp spec fn uppercase_of(s: Seq<char>) -> Seq<char>;

/// `str::to_uppercase`: the uppercase equivalent of `s`, as the Unicode
/// `Uppercase` mapping defines it; what that mapping is is not stated.
#[verifier::external_body]
fn to_uppercase(s: &str) -> (r: String)
    ensures
        r@ == uppercase_of(s@),
{
    s.to_uppercase()
}

/// The variables that receive the HarmonyOS NDK's include flag for a Rust
/// target: the C and C++ flags of the target, and the extra clang
/// arguments of bindgen for the target with `-` written `_`, in lower and
/// in upper case.
pub open spec fn hms_include_env_keys(rust_target: Seq<char>) -> Seq<Seq<char>> {
    let t = replace_char(rust_target, '-', '_');
    seq![
        "TARGET_CFLAGS"@,
        "TARGET_CXXFLAGS"@,
        "BINDGEN_EXTRA_CLANG_ARGS_"@ + t,
        "BINDGEN_EXTRA_CLANG_ARGS_"@ + uppercase_of(t),
    ]
}

/// The variables that receive the include flag for `rust_target` (see
/// `hms_include_env_keys`).
pub fn include_env_keys(rust_target: &str) -> (r: Vec<String>)
    ensures
        crate::text::string_views(r@) == hms_include_env_keys(rust_target@),
{
    let t = replace_char_in(rust_target, '-', '_');
    let upper = to_uppercase(t.as_str());
    let mut keys: Vec<String> = Vec::new();
    keys.push("TARGET_CFLAGS".to_owned());
    keys.push("TARGET_CXXFLAGS".to_owned());
    keys.push("BINDGEN_EXTRA_CLANG_ARGS_".to_owned().concat(t.as_str()));
    keys.push("BINDGEN_EXTRA_CLANG_ARGS_".to_owned().concat(upper.as_str()));
    assert(crate::text::string_views(keys@) =~= hms_include_env_keys(rust_target@));
    keys
}

/// `env` after appending `flag`, in turn, to each of `keys` (each taking
/// what the process environment holds for it).
pub open spec fn with_flag_appended(
    env: Map<Seq<char>, Seq<char>>,
    process_env: Map<Seq<char>, Seq<char>>,
    keys: Seq<Seq<char>>,
    flag: Seq<char>,
) -> Map<Seq<char>, Seq<char>>
    decreases keys.len(),
{
    if keys.len() == 0 {
        env
    } else {
        with_flag_appended(env, process_env, keys.drop_last(), flag).insert(
            keys.last(),
            merged_flag(env_value(process_env, keys.last()), flag),
        )
    }
}

/// Appends `flag` to each of `keys` in turn (see `append_env_with_flag`).
pub fn append_flag_to_keys(prepare_env: &mut EnvMap, process_env: &EnvMap, keys: &Vec<String>, flag: &str)
    requires
        old(prepare_env).wf(),
        process_env.wf(),
    ensures
        final(prepare_env).wf(),
        final(prepare_env)@ == with_flag_appended(
            old(prepare_env)@,
            process_env@,
            crate::text::string_views(keys@),
            flag@,
        ),
{
    let ghost start = prepare_env@;
    let ghost kv = crate::text::string_views(keys@);
    let mut i: usize = 0;
    while i < keys.len()
        invariant
            i <= keys@.len(),
            kv == crate::text::string_views(keys@),
            process_env.wf(),
            prepare_env.wf(),
            prepare_env@ == with_flag_appended(start, process_env@, kv.subrange(0, i as int), flag@),
        decreases keys@.len() - i,
    {
        append_env_with_flag(prepare_env, process_env, keys[i].as_str(), flag);
        assert(kv.subrange(0, i + 1).drop_last() =~= kv.subrange(0, i as int));
        i = i + 1;
    }
    assert(kv.subrange(0, keys@.len() as int) =~= kv);
}

/// Points C, C++ and bindgen builds for `rust_target` at the HarmonyOS
/// NDK's headers: when it has a header directory, `-I<include>` is appended
/// to what the process environment holds for each variable of
/// `hms_include_env_keys`; otherwise nothing changes.
pub fn apply_hms_include_env(
    prepare_env: &mut EnvMap,
    hms_paths: &HmsPaths,
    rust_target: &str,
    process_env: &EnvMap,
)
    requires
        old(prepare_env).wf(),
        process_env.wf(),
    ensures
        final(prepare_env).wf(),
        match hms_paths.include_dir {
            Some(inc) => final(prepare_env)@ == with_flag_appended(
                old(prepare_env)@,
                process_env@,
                hms_include_env_keys(rust_target@),
                "-I"@ + inc@,
            ),
            None => final(prepare_env)@ == old(prepare_env)@,
        },
{
    match &hms_paths.include_dir {
        Some(dir) => {
            let flag = "-I".to_owned().concat(dir.as_str());
            let keys = include_env_keys(rust_target);
            append_flag_to_keys(prepare_env, process_env, &keys, flag.as_str());
        },
        None => {},
    }
}

/// `<hms>` beside the OpenHarmony NDK: the directory `hms` next to it.
pub open spec fn sibling_hms_dir(ohos_ndk: Seq<char>) -> Option<Seq<char>> {
    match crate::paths::path_parent(ohos_ndk) {
        Some(root) => Some(crate::paths::path_join(root, "hms"@)),
        None => None,
    }
}

/// Where the HarmonyOS NDK is looked for: `hms` beside the OpenHarmony
/// NDK when that has a parent directory, else `env_hos_ndk_home` (what
/// `HOS_NDK_HOME` holds, if it is set).
pub fn hos_sdk_dir(ohos_ndk: &str, env_hos_ndk_home: Option<String>) -> (r: Option<String>)
    ensures
        match sibling_hms_dir(ohos_ndk@) {
            Some(d) => r matches Some(s) && s@ == d,
            None => match env_hos_ndk_home {
                Some(h) => r matches Some(s) && s@ == h@,
                None => r is None,
            },
        },
{
    match parent_of(ohos_ndk) {
        Some(root) => Some(join_path(root.as_str(), "hms")),
        None => env_hos_ndk_home,
    }
}

} // verus!

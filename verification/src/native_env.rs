//! The environment of a cargo invocation for an OHOS target: which
//! toolchain compiles and links, the link flags that point it at the NDK
//! sysroot, and the variables that C, C++ and bindgen builds read.

use vstd::prelude::*;
use crate::arch::Arch;
use crate::envmap::EnvMap;
use crate::paths::join_path;
use crate::text::join_strings;
use crate::toolchain::{append_hms_link_flags, apply_hms_include_env, HmsPaths};

verus! {

broadcast use vstd::string::group_string_axioms;

/// The view of an optional string.
pub open spec fn opt_view(o: Option<String>) -> Option<Seq<char>> {
    match o {
        Some(s) => Some(s@),
        None => None,
    }
}

/// The toolchain used: the HarmonyOS NDK's BiSheng compiler when asked
/// for, else the OpenHarmony NDK's LLVM.
pub open spec fn toolchain_root_of(ndk: Seq<char>, hos_ndk: Seq<char>, bisheng: bool) -> Seq<char> {
    if bisheng {
        crate::paths::path_join(crate::paths::path_join(hos_ndk, "native"@), "BiSheng"@)
    } else {
        crate::paths::path_join(crate::paths::path_join(ndk, "native"@), "llvm"@)
    }
}

/// The message for asking for BiSheng without a HarmonyOS NDK.
pub open spec fn bisheng_missing_message() -> Seq<char> {
    "Failed to get HarmonyOS NDK path while --bisheng is enabled."@
}

/// Whether BiSheng is asked for while no HarmonyOS NDK is there.
pub open spec fn bisheng_unavailable(hos_ndk: Seq<char>, bisheng: bool, hos_ndk_exists: bool) -> bool {
    bisheng && (hos_ndk.len() == 0 || !hos_ndk_exists)
}

/// The toolchain's root (see `toolchain_root_of`); `hos_ndk_exists` is
/// whether the file system reported the HarmonyOS NDK to exist.
pub fn toolchain_root(ndk: &str, hos_ndk: &str, bisheng: bool, hos_ndk_exists: bool) -> (r: Result<
    String,
    String,
>)
    ensures
        r is Err <==> bisheng_unavailable(hos_ndk@, bisheng, hos_ndk_exists),
        r matches Err(m) ==> m@ == bisheng_missing_message(),
        r matches Ok(p) ==> p@ == toolchain_root_of(ndk@, hos_ndk@, bisheng),
{
    if bisheng {
        if hos_ndk.unicode_len() == 0 || !hos_ndk_exists {
            return Err("Failed to get HarmonyOS NDK path while --bisheng is enabled.".to_owned());
        }
        let a = join_path(hos_ndk, "native");
        Ok(join_path(a.as_str(), "BiSheng"))
    } else {
        let a = join_path(ndk, "native");
        Ok(join_path(a.as_str(), "llvm"))
    }
}

/// `<ndk>/native/sysroot`.
pub open spec fn sysroot_of(ndk: Seq<char>) -> Seq<char> {
    crate::paths::path_join(crate::paths::path_join(ndk, "native"@), "sysroot"@)
}

/// The code-generation flags for 32-bit ARM.
pub open spec fn armv7_flags() -> Seq<Seq<char>> {
    seq!["-march=armv7-a"@, "-mfloat-abi=softfp"@, "-mtune=generic-armv7-a"@, "-mthumb"@]
}

/// The flags passed to the linker: the C target and the sysroot, the
/// HarmonyOS library directory, the ARMv7 code-generation flags, the
/// `SONAME` and the bundled `libatomic` directory, each when it applies.
pub open spec fn base_flags_of(
    arch: Arch,
    ndk: Seq<char>,
    hms_lib: Option<Seq<char>>,
    soname: Option<Seq<char>>,
    atomic_dir: Option<Seq<char>>,
) -> Seq<Seq<char>> {
    seq!["--target="@ + crate::arch::c_target_of(arch), "--sysroot="@ + sysroot_of(ndk), "-D__MUSL__"@]
        + crate::toolchain::hms_link_flags(hms_lib) + (if arch == Arch::ARM32 {
        armv7_flags()
    } else {
        Seq::<Seq<char>>::empty()
    }) + (match soname {
        Some(s) => seq!["-Wl,-soname,"@ + s],
        None => Seq::<Seq<char>>::empty(),
    }) + (match atomic_dir {
        Some(d) => seq!["-L"@ + d],
        None => Seq::<Seq<char>>::empty(),
    })
}

/// Each flag as a `-Clink-arg=` argument of rustc.
pub open spec fn link_arg_flags(flags: Seq<Seq<char>>) -> Seq<Seq<char>> {
    flags.map_values(|f: Seq<char>| "-Clink-arg="@ + f)
}

/// The unit separator, which `CARGO_ENCODED_RUSTFLAGS` puts between flags.
pub open spec fn unit_separator() -> Seq<char> {
    seq!['\x1f']
}

/// `CARGO_ENCODED_RUSTFLAGS`: the link arguments, then the flags already
/// set for rustc when there are any.
pub open spec fn encoded_rustflags_of(flags: Seq<Seq<char>>, preset: Seq<char>) -> Seq<char> {
    let joined = crate::text::join_with(link_arg_flags(flags), unit_separator());
    if preset.len() > 0 {
        joined + unit_separator() + preset
    } else {
        joined
    }
}

/// What the first of `keys` that is set holds; empty when none is.
pub open spec fn first_set(env: Map<Seq<char>, Seq<char>>, keys: Seq<Seq<char>>) -> Seq<char>
    decreases keys.len(),
{
    if keys.len() == 0 {
        Seq::<char>::empty()
    } else if env.contains_key(keys[0]) {
        env[keys[0]]
    } else {
        first_set(env, keys.drop_first())
    }
}

/// The variables consulted, in order, for rustc flags already set by the
/// user: all four for `ohrs build`, the first two for `ohrs cargo`.
pub open spec fn rustflags_keys(full_chain: bool) -> Seq<Seq<char>> {
    if full_chain {
        seq!["CARGO_RUSTFLAGS"@, "CARGO_ENCODED_RUSTFLAGS"@, "RUSTFLAGS"@, "ENCODED_RUSTFLAGS"@]
    } else {
        seq!["CARGO_RUSTFLAGS"@, "CARGO_ENCODED_RUSTFLAGS"@]
    }
}

/// What a native cargo invocation is set up with.
pub struct NativeBuildSetup {
    pub arch: Arch,
    /// The OpenHarmony NDK (`OHOS_NDK_HOME`).
    pub ndk: String,
    /// The HarmonyOS NDK, empty when there is none.
    pub hos_ndk: String,
    /// Whether the file system reported the HarmonyOS NDK to exist.
    pub hos_ndk_exists: bool,
    pub bisheng: bool,
    /// The HarmonyOS NDK's directories (see `resolve_hms_paths`).
    pub hms: HmsPaths,
    /// The completed `SONAME` to give the library.
    pub soname: Option<String>,
    /// The directory holding the bundled `libatomic`, when it is linked.
    pub atomic_search_dir: Option<String>,
    /// `TYPE_DEF_TMP_PATH`, for `ohrs build`.
    pub tmp_path: Option<String>,
    /// `NAPI_BUILD_TARGET_NAME`; `entry` when not given.
    pub build_target_name: Option<String>,
    /// Whether `RUSTFLAGS` and `ENCODED_RUSTFLAGS` are consulted too.
    pub full_rustflags_chain: bool,
}

/// The variables set for the invocation, before the HarmonyOS include
/// flags.
pub open spec fn native_env_pairs(
    arch: Arch,
    root: Seq<char>,
    rustflags: Seq<char>,
    path: Seq<char>,
    tmp_path: Option<Seq<char>>,
    target_name: Seq<char>,
    opencv_args: Seq<char>,
) -> Seq<(Seq<char>, Seq<char>)> {
    let link = crate::arch::rust_link_target_of(arch);
    let tool = |n: Seq<char>| crate::toolchain::tool_of(root, n);
    seq![
        ("CARGO_TARGET_"@ + link + "_LINKER"@, tool("clang"@)),
        ("LIBCLANG_PATH"@, crate::paths::path_join(root, "lib"@)),
        ("CLANG_PATH"@, tool("clang++"@)),
        ("CXXSTDLIB_"@ + link, "c++"@),
        ("TARGET_CC"@, tool("clang"@)),
        ("TARGET_CXX"@, tool("clang++"@)),
        ("TARGET_RANLIB"@, tool("llvm-ranlib"@)),
        ("TARGET_AR"@, tool("llvm-ar"@)),
        ("TARGET_AS"@, tool("llvm-as"@)),
        ("TARGET_LD"@, tool("ld.lld"@)),
        ("TARGET_STRIP"@, tool("llvm-strip"@)),
        ("TARGET_OBJDUMP"@, tool("llvm-objdump"@)),
        ("TARGET_OBJCOPY"@, tool("llvm-objcopy"@)),
        ("TARGET_NM"@, tool("llvm-nm"@)),
        ("CARGO_ENCODED_RUSTFLAGS"@, rustflags),
        ("PATH"@, path),
    ] + (match tmp_path {
        Some(t) => seq![("TYPE_DEF_TMP_PATH"@, t)],
        None => Seq::<(Seq<char>, Seq<char>)>::empty(),
    }) + seq![
        ("NAPI_BUILD_TARGET_NAME"@, target_name),
        ("OPENCV_CLANG_ARGS"@, opencv_args),
        ("DEP_ATOMIC"@, "clang_rt.builtins"@),
    ]
}

/// The environment of a native cargo invocation, given the process's own
/// environment `penv`: the toolchain variables, the encoded rustc flags,
/// `PATH` with the toolchain's `bin` first, and the HarmonyOS include
/// flags when its header directory exists.
pub open spec fn native_env_spec(s: NativeBuildSetup, penv: Map<Seq<char>, Seq<char>>) -> Map<
    Seq<char>,
    Seq<char>,
> {
    let root = toolchain_root_of(s.ndk@, s.hos_ndk@, s.bisheng);
    let flags = base_flags_of(
        s.arch,
        s.ndk@,
        opt_view(s.hms.lib),
        opt_view(s.soname),
        opt_view(s.atomic_search_dir),
    );
    let preset = first_set(penv, rustflags_keys(s.full_rustflags_chain));
    let target_name = match opt_view(s.build_target_name) {
        Some(n) => n,
        None => "entry"@,
    };
    let pairs = native_env_pairs(
        s.arch,
        root,
        encoded_rustflags_of(flags, preset),
        crate::toolchain::bin_dir_of(root) + ":"@ + crate::toolchain::env_value(penv, "PATH"@),
        opt_view(s.tmp_path),
        target_name,
        crate::text::join_with(flags, " "@),
    );
    let m = crate::envmap::pairs_map(pairs);
    match s.hms.include_dir {
        Some(inc) => crate::toolchain::with_flag_appended(
            m,
            penv,
            crate::toolchain::hms_include_env_keys(crate::arch::rust_target_of(s.arch)),
            "-I"@ + inc@,
        ),
        None => m,
    }
}

/// The linker flags (see `base_flags_of`).
pub fn base_flags(
    arch: Arch,
    ndk: &str,
    hms: &HmsPaths,
    soname: &Option<String>,
    atomic_dir: &Option<String>,
) -> (r: Vec<String>)
    ensures
        crate::text::string_views(r@) == base_flags_of(
            arch,
            ndk@,
            opt_view(hms.lib),
            opt_view(*soname),
            opt_view(*atomic_dir),
        ),
{
    let a = join_path(ndk, "native");
    let sysroot = join_path(a.as_str(), "sysroot");
    let mut flags: Vec<String> = Vec::new();
    flags.push("--target=".to_owned().concat(arch.c_target()));
    flags.push("--sysroot=".to_owned().concat(sysroot.as_str()));
    flags.push("-D__MUSL__".to_owned());
    let ghost first = crate::text::string_views(flags@);
    append_hms_link_flags(&mut flags, hms);
    let ghost second = crate::text::string_views(flags@);
    let is_arm32 = match arch {
        Arch::ARM32 => true,
        _ => false,
    };
    if is_arm32 {
        flags.push("-march=armv7-a".to_owned());
        flags.push("-mfloat-abi=softfp".to_owned());
        flags.push("-mtune=generic-armv7-a".to_owned());
        flags.push("-mthumb".to_owned());
    }
    let ghost third = crate::text::string_views(flags@);
    assert(third =~= second + (if arch == Arch::ARM32 {
        armv7_flags()
    } else {
        Seq::<Seq<char>>::empty()
    }));
    match soname {
        Some(s) => {
            flags.push("-Wl,-soname,".to_owned().concat(s.as_str()));
        },
        None => {},
    }
    let ghost fourth = crate::text::string_views(flags@);
    assert(fourth =~= third + (match opt_view(*soname) {
        Some(s) => seq!["-Wl,-soname,"@ + s],
        None => Seq::<Seq<char>>::empty(),
    }));
    match atomic_dir {
        Some(d) => {
            flags.push("-L".to_owned().concat(d.as_str()));
        },
        None => {},
    }
    assert(crate::text::string_views(flags@) =~= fourth + (match opt_view(*atomic_dir) {
        Some(d) => seq!["-L"@ + d],
        None => Seq::<Seq<char>>::empty(),
    }));
    assert(first =~= seq![
        "--target="@ + crate::arch::c_target_of(arch),
        "--sysroot="@ + sysroot_of(ndk@),
        "-D__MUSL__"@,
    ]);
    flags
}

/// The value of `CARGO_ENCODED_RUSTFLAGS` (see `encoded_rustflags_of`).
pub fn encoded_rustflags(flags: &Vec<String>, preset: &str) -> (r: String)
    ensures
        r@ == encoded_rustflags_of(crate::text::string_views(flags@), preset@),
{
    let ghost fv = crate::text::string_views(flags@);
    let mut args: Vec<String> = Vec::new();
    let mut i: usize = 0;
    while i < flags.len()
        invariant
            i <= flags@.len(),
            fv == crate::text::string_views(flags@),
            crate::text::string_views(args@) == link_arg_flags(fv).subrange(0, i as int),
        decreases flags@.len() - i,
    {
        let ghost before = crate::text::string_views(args@);
        args.push("-Clink-arg=".to_owned().concat(flags[i].as_str()));
        assert(crate::text::string_views(args@) =~= before.push(link_arg_flags(fv)[i as int]));
        assert(link_arg_flags(fv).subrange(0, i + 1) =~= link_arg_flags(fv).subrange(0, i as int).push(
            link_arg_flags(fv)[i as int],
        ));
        i = i + 1;
    }
    assert(link_arg_flags(fv).subrange(0, flags@.len() as int) =~= link_arg_flags(fv));
    let sep = crate::text::string_of(&['\x1f']);
    assert(sep@ =~= unit_separator());
    let joined = join_strings(&args, sep.as_str());
    if preset.unicode_len() > 0 {
        joined.concat(sep.as_str()).concat(preset)
    } else {
        joined
    }
}

/// What the first of `keys` that is set holds (see `first_set`).
pub fn first_set_value(env: &EnvMap, keys: &Vec<String>) -> (r: String)
    requires
        env.wf(),
    ensures
        r@ == first_set(env@, crate::text::string_views(keys@)),
{
    let ghost kv = crate::text::string_views(keys@);
    assert(kv.subrange(0, kv.len() as int) =~= kv);
    let mut i: usize = 0;
    while i < keys.len()
        invariant
            i <= keys@.len(),
            env.wf(),
            kv == crate::text::string_views(keys@),
            first_set(env@, kv.subrange(i as int, kv.len() as int)) == first_set(env@, kv),
        decreases keys@.len() - i,
    {
        let ghost sub = kv.subrange(i as int, kv.len() as int);
        assert(sub[0] == keys@[i as int]@);
        match env.get(keys[i].as_str()) {
            Some(v) => {
                return v;
            },
            None => {},
        }
        assert(sub.drop_first() =~= kv.subrange(i + 1, kv.len() as int));
        i = i + 1;
    }
    String::new()
}

fn rustflags_key_list(full_chain: bool) -> (r: Vec<String>)
    ensures
        crate::text::string_views(r@) == rustflags_keys(full_chain),
{
    let mut keys: Vec<String> = Vec::new();
    keys.push("CARGO_RUSTFLAGS".to_owned());
    keys.push("CARGO_ENCODED_RUSTFLAGS".to_owned());
    if full_chain {
        keys.push("RUSTFLAGS".to_owned());
        keys.push("ENCODED_RUSTFLAGS".to_owned());
    }
    assert(crate::text::string_views(keys@) =~= rustflags_keys(full_chain));
    keys
}

fn pair(k: &str, v: String) -> (r: (String, String))
    ensures
        r.0@ == k@,
        r.1@ == v@,
{
    (k.to_owned(), v)
}

/// The environment of a native cargo invocation (see `native_env_spec`),
/// or the message refusing BiSheng without a HarmonyOS NDK.
pub fn native_build_env(setup: &NativeBuildSetup, process_env: &EnvMap) -> (r: Result<EnvMap, String>)
    requires
        process_env.wf(),
    ensures
        r is Err <==> bisheng_unavailable(setup.hos_ndk@, setup.bisheng, setup.hos_ndk_exists),
        r matches Err(m) ==> m@ == bisheng_missing_message(),
        r matches Ok(env) ==> env.wf() && env@ == native_env_spec(*setup, process_env@),
{
    let root = toolchain_root(
        setup.ndk.as_str(),
        setup.hos_ndk.as_str(),
        setup.bisheng,
        setup.hos_ndk_exists,
    )?;
    let tc = crate::toolchain::resolve_toolchain_paths(root.as_str());
    let flags = base_flags(
        setup.arch,
        setup.ndk.as_str(),
        &setup.hms,
        &setup.soname,
        &setup.atomic_search_dir,
    );
    let keys = rustflags_key_list(setup.full_rustflags_chain);
    let preset = first_set_value(process_env, &keys);
    let rustflags = encoded_rustflags(&flags, preset.as_str());
    let current_path = match process_env.get("PATH") {
        Some(p) => p,
        None => String::new(),
    };
    let path = tc.bin_dir.clone().concat(":").concat(current_path.as_str());
    let target_name = match &setup.build_target_name {
        Some(n) => n.clone(),
        None => "entry".to_owned(),
    };
    let opencv = join_strings(&flags, " ");
    let link = setup.arch.rust_link_target();
    let mut pairs: Vec<(String, String)> = Vec::new();
    pairs.push(("CARGO_TARGET_".to_owned().concat(link).concat("_LINKER"), tc.cc.clone()));
    pairs.push(pair("LIBCLANG_PATH", tc.lib_dir.clone()));
    pairs.push(pair("CLANG_PATH", tc.cxx.clone()));
    pairs.push(("CXXSTDLIB_".to_owned().concat(link), "c++".to_owned()));
    pairs.push(pair("TARGET_CC", tc.cc.clone()));
    pairs.push(pair("TARGET_CXX", tc.cxx.clone()));
    pairs.push(pair("TARGET_RANLIB", tc.ranlib.clone()));
    pairs.push(pair("TARGET_AR", tc.ar.clone()));
    pairs.push(pair("TARGET_AS", tc.llvm_as.clone()));
    pairs.push(pair("TARGET_LD", tc.ld.clone()));
    pairs.push(pair("TARGET_STRIP", tc.strip.clone()));
    pairs.push(pair("TARGET_OBJDUMP", tc.objdump.clone()));
    pairs.push(pair("TARGET_OBJCOPY", tc.objcopy.clone()));
    pairs.push(pair("TARGET_NM", tc.nm.clone()));
    pairs.push(pair("CARGO_ENCODED_RUSTFLAGS", rustflags));
    pairs.push(pair("PATH", path));
    match &setup.tmp_path {
        Some(t) => {
            pairs.push(pair("TYPE_DEF_TMP_PATH", t.clone()));
        },
        None => {},
    }
    pairs.push(pair("NAPI_BUILD_TARGET_NAME", target_name));
    pairs.push(pair("OPENCV_CLANG_ARGS", opencv));
    pairs.push(pair("DEP_ATOMIC", "clang_rt.builtins".to_owned()));
    let ghost target_name_v = match opt_view(setup.build_target_name) {
        Some(n) => n,
        None => "entry"@,
    };
    assert(crate::envmap::pairs_view(pairs@) =~= native_env_pairs(
        setup.arch,
        root@,
        rustflags@,
        path@,
        opt_view(setup.tmp_path),
        target_name_v,
        opencv@,
    ));
    let mut env = EnvMap::from_pairs(pairs);
    apply_hms_include_env(&mut env, &setup.hms, setup.arch.rust_target(), process_env);
    Ok(env)
}

} // verus!

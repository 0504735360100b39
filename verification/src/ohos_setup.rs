//! What the build script of a crate for OHOS tells cargo: where the NDK's
//! libraries are and which library to link, for a device build and for a
//! test build against a host ArkVM bundle.

use vstd::prelude::*;
use crate::paths::{join_path, parent_of};

verus! {

broadcast use vstd::string::group_string_axioms;

/// The sysroot library directory for a Rust target; none for a target
/// that is not an OHOS one.
pub open spec fn sysroot_lib_name(target: Seq<char>) -> Seq<char> {
    if target == "aarch64-unknown-linux-ohos"@ {
        "aarch64-linux-ohos"@
    } else if target == "armv7-unknown-linux-ohos"@ {
        "arm-linux-ohos"@
    } else if target == "x86_64-unknown-linux-ohos"@ {
        "x86_64-linux-ohos"@
    } else {
        Seq::<char>::empty()
    }
}

/// The directives of a device build: the sysroot's and LLVM's library
/// directories for the target, and the native API library.
pub open spec fn setup_directives_of(ndk: Seq<char>, target: Seq<char>) -> Seq<Seq<char>> {
    let lib = sysroot_lib_name(target);
    seq![
        "cargo:rustc-link-search="@ + ndk + "/native/sysroot/usr/lib/"@ + lib,
        "cargo:rustc-link-search="@ + ndk + "/native/llvm/lib/"@ + lib,
        "cargo:rustc-link-lib=dylib=ace_napi.z"@,
    ]
}

/// The directives of a device build (see `setup_directives_of`), from
/// `OHOS_NDK_HOME` and the build's `TARGET`.
pub fn setup_directives(ndk: &str, target: &str) -> (r: Vec<String>)
    ensures
        crate::text::string_views(r@) == setup_directives_of(ndk@, target@),
{
    let t = target.to_owned();
    let lib = if t == "aarch64-unknown-linux-ohos".to_owned() {
        "aarch64-linux-ohos"
    } else if t == "armv7-unknown-linux-ohos".to_owned() {
        "arm-linux-ohos"
    } else if t == "x86_64-unknown-linux-ohos".to_owned() {
        "x86_64-linux-ohos"
    } else {
        ""
    };
    proof {
        reveal_strlit("");
    }
    assert(lib@ == sysroot_lib_name(target@));
    let mut out: Vec<String> = Vec::new();
    out.push(
        "cargo:rustc-link-search=".to_owned().concat(ndk).concat("/native/sysroot/usr/lib/").concat(lib),
    );
    out.push("cargo:rustc-link-search=".to_owned().concat(ndk).concat("/native/llvm/lib/").concat(lib));
    out.push("cargo:rustc-link-lib=dylib=ace_napi.z".to_owned());
    assert(crate::text::string_views(out@) =~= setup_directives_of(ndk@, target@));
    out
}

/// The message when neither variable locating the host ArkVM is set.
pub open spec fn arkvm_unset_message() -> Seq<char> {
    "ARK_HOST_BUNDLE_DIR or ARK_ACE_NAPI_LIB must be set when feature `arkvm-test` is enabled"@
}

/// The message when the library path has no directory.
pub open spec fn arkvm_no_dir_message() -> Seq<char> {
    "ARK_ACE_NAPI_LIB must point to a file inside a directory"@
}

/// The directives of a test build against a host ArkVM: the library is
/// `ARK_ACE_NAPI_LIB`, else `libace_napi.so` in `ARK_HOST_BUNDLE_DIR`; its
/// directory is searched; on Linux the library itself is linked without
/// `--as-needed`, elsewhere by name.  Before them, cargo is asked to rerun
/// when either variable changes.
pub open spec fn arkvm_directives_of(
    ace_napi_lib: Option<Seq<char>>,
    host_bundle_dir: Option<Seq<char>>,
    target_os: Seq<char>,
) -> Result<Seq<Seq<char>>, Seq<char>> {
    let rerun = seq![
        "cargo:rerun-if-env-changed=ARK_HOST_BUNDLE_DIR"@,
        "cargo:rerun-if-env-changed=ARK_ACE_NAPI_LIB"@,
    ];
    let lib = match ace_napi_lib {
        Some(l) => Some(l),
        None => match host_bundle_dir {
            Some(d) => Some(crate::paths::path_join(d, "libace_napi.so"@)),
            None => None,
        },
    };
    match lib {
        None => Err(arkvm_unset_message()),
        Some(l) => match crate::paths::path_parent(l) {
            None => Err(arkvm_no_dir_message()),
            Some(dir) => Ok(
                rerun + seq!["cargo:rustc-link-search=native="@ + dir] + if target_os == "linux"@ {
                    seq![
                        "cargo:rustc-cdylib-link-arg=-Wl,--no-as-needed"@,
                        "cargo:rustc-cdylib-link-arg="@ + l,
                        "cargo:rustc-cdylib-link-arg=-Wl,--as-needed"@,
                    ]
                } else {
                    seq!["cargo:rustc-link-lib=dylib=ace_napi"@]
                },
            ),
        },
    }
}

/// The directives of a test build against a host ArkVM (see
/// `arkvm_directives_of`), or why they cannot be given.
pub fn arkvm_directives(
    ace_napi_lib: &Option<String>,
    host_bundle_dir: &Option<String>,
    target_os: &str,
) -> (r: Result<Vec<String>, String>)
    ensures
        match r {
            Ok(v) => arkvm_directives_of(
                match ace_napi_lib {
                    Some(s) => Some(s@),
                    None => None,
                },
                match host_bundle_dir {
                    Some(s) => Some(s@),
                    None => None,
                },
                target_os@,
            ) == Ok::<Seq<Seq<char>>, Seq<char>>(crate::text::string_views(v@)),
            Err(m) => arkvm_directives_of(
                match ace_napi_lib {
                    Some(s) => Some(s@),
                    None => None,
                },
                match host_bundle_dir {
                    Some(s) => Some(s@),
                    None => None,
                },
                target_os@,
            ) == Err::<Seq<Seq<char>>, Seq<char>>(m@),
        },
{
    let lib = match ace_napi_lib {
        Some(l) => l.clone(),
        None => match host_bundle_dir {
            Some(d) => join_path(d.as_str(), "libace_napi.so"),
            None => {
                return Err(
                    "ARK_HOST_BUNDLE_DIR or ARK_ACE_NAPI_LIB must be set when feature `arkvm-test` is enabled".to_owned(),
                );
            },
        },
    };
    let dir = match parent_of(lib.as_str()) {
        Some(d) => d,
        None => {
            return Err("ARK_ACE_NAPI_LIB must point to a file inside a directory".to_owned());
        },
    };
    let mut out: Vec<String> = Vec::new();
    out.push("cargo:rerun-if-env-changed=ARK_HOST_BUNDLE_DIR".to_owned());
    out.push("cargo:rerun-if-env-changed=ARK_ACE_NAPI_LIB".to_owned());
    out.push("cargo:rustc-link-search=native=".to_owned().concat(dir.as_str()));
    let ghost head = seq![
        "cargo:rerun-if-env-changed=ARK_HOST_BUNDLE_DIR"@,
        "cargo:rerun-if-env-changed=ARK_ACE_NAPI_LIB"@,
    ] + seq!["cargo:rustc-link-search=native="@ + dir@];
    assert(crate::text::string_views(out@) =~= head);
    if target_os.to_owned() == "linux".to_owned() {
        out.push("cargo:rustc-cdylib-link-arg=-Wl,--no-as-needed".to_owned());
        out.push("cargo:rustc-cdylib-link-arg=".to_owned().concat(lib.as_str()));
        out.push("cargo:rustc-cdylib-link-arg=-Wl,--as-needed".to_owned());
        assert(crate::text::string_views(out@) =~= head + seq![
            "cargo:rustc-cdylib-link-arg=-Wl,--no-as-needed"@,
            "cargo:rustc-cdylib-link-arg="@ + lib@,
            "cargo:rustc-cdylib-link-arg=-Wl,--as-needed"@,
        ]);
    } else {
        out.push("cargo:rustc-link-lib=dylib=ace_napi".to_owned());
        assert(crate::text::string_views(out@) =~= head + seq!["cargo:rustc-link-lib=dylib=ace_napi"@]);
    }
    let ghost expected = arkvm_directives_of(
        match ace_napi_lib {
            Some(s) => Some(s@),
            None => None,
        },
        match host_bundle_dir {
            Some(s) => Some(s@),
            None => None,
        },
        target_os@,
    );
    assert(expected == Ok::<Seq<Seq<char>>, Seq<char>>(crate::text::string_views(out@)));
    Ok(out)
}

} // verus!

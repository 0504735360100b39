//! The bundled OHOS `libatomic`: how it is linked, where the archive is
//! unpacked under cargo's target directory, and where the library for a
//! profile and an architecture is found and offered to the linker.

use vstd::prelude::*;
use crate::arch::Arch;
use crate::paths::join_path;

verus! {

broadcast use vstd::string::group_string_axioms;

/// How the bundled `libatomic` is linked.
#[derive(Debug, Clone, Copy, PartialEq, Eq, Structural)]
pub enum Linkage {
    Static,
    Dynamic,
}

/// The name of the bundled archive, and of the directory it unpacks to.
pub const ARCHIVE_NAME: &'static str = "OpenHarmony-6.0-Release-libatomic-ohos";

/// The message for asking for both linkages at once.
pub open spec fn both_linkages_message() -> Seq<char> {
    "--sta-atomic and --dyn-atomic cannot be used together."@
}

/// The message for an architecture that the archive has no library for.
pub open spec fn no_loongarch_message() -> Seq<char> {
    "--sta-atomic and --dyn-atomic do not support loongarch64 because the bundled OHOS libatomic archive does not contain that ABI."@
}

impl Linkage {
    /// The linkage that `--sta-atomic` and `--dyn-atomic` ask for: none
    /// when neither is given, an error when both are.
    pub fn from_flags(sta_atomic: bool, dyn_atomic: bool) -> (r: Result<Option<Linkage>, String>)
        ensures
            r is Err <==> sta_atomic && dyn_atomic,
            r matches Err(m) ==> m@ == both_linkages_message(),
            r matches Ok(l) ==> l == (if sta_atomic {
                Some(Linkage::Static)
            } else if dyn_atomic {
                Some(Linkage::Dynamic)
            } else {
                None
            }),
    {
        if sta_atomic && dyn_atomic {
            Err("--sta-atomic and --dyn-atomic cannot be used together.".to_owned())
        } else if sta_atomic {
            Ok(Some(Linkage::Static))
        } else if dyn_atomic {
            Ok(Some(Linkage::Dynamic))
        } else {
            Ok(None)
        }
    }

    /// The library's file name for this linkage.
    pub open spec fn file_name_spec(self) -> Seq<char> {
        match self {
            Linkage::Static => "libatomic.a"@,
            Linkage::Dynamic => "libatomic.so"@,
        }
    }

    /// The directory name used for this linkage.
    pub open spec fn dir_name_spec(self) -> Seq<char> {
        match self {
            Linkage::Static => "static"@,
            Linkage::Dynamic => "dynamic"@,
        }
    }

    /// `libatomic.a` or `libatomic.so`.
    pub fn file_name(self) -> (s: &'static str)
        ensures
            s@ == self.file_name_spec(),
    {
        match self {
            Linkage::Static => "libatomic.a",
            Linkage::Dynamic => "libatomic.so",
        }
    }

    /// `static` or `dynamic`.
    pub fn dir_name(self) -> (s: &'static str)
        ensures
            s@ == self.dir_name_spec(),
    {
        match self {
            Linkage::Static => "static",
            Linkage::Dynamic => "dynamic",
        }
    }
}

/// The ABI directory of the archive for `arch`; the archive has none for
/// loongarch64.
pub open spec fn archive_abi_of(arch: Arch) -> Option<Seq<char>> {
    match arch {
        Arch::ARM64 => Some("arm64-v8a"@),
        Arch::ARM32 => Some("armeabi-v7a"@),
        Arch::X86_64 => Some("x86_64"@),
        Arch::LoongArch64 => None,
    }
}

/// The archive's ABI directory for `arch`, or the message refusing it.
pub fn archive_abi(arch: Arch) -> (r: Result<&'static str, String>)
    ensures
        match archive_abi_of(arch) {
            Some(a) => r matches Ok(s) && s@ == a,
            None => r matches Err(m) && m@ == no_loongarch_message(),
        },
{
    match arch {
        Arch::ARM64 => Ok("arm64-v8a"),
        Arch::ARM32 => Ok("armeabi-v7a"),
        Arch::X86_64 => Ok("x86_64"),
        Arch::LoongArch64 => Err(
            "--sta-atomic and --dyn-atomic do not support loongarch64 because the bundled OHOS libatomic archive does not contain that ABI.".to_owned(),
        ),
    }
}

/// `release` or `debug`.
pub open spec fn profile_of(release: bool) -> Seq<char> {
    if release {
        "release"@
    } else {
        "debug"@
    }
}

/// `release` or `debug`.
pub fn profile_name(release: bool) -> (s: &'static str)
    ensures
        s@ == profile_of(release),
{
    if release {
        "release"
    } else {
        "debug"
    }
}

/// `<target>/ohrs/<dir>`.
pub open spec fn ohrs_dir(target: Seq<char>, dir: Seq<char>) -> Seq<char> {
    crate::paths::path_join(crate::paths::path_join(target, "ohrs"@), dir)
}

/// Where the archive is unpacked: `<target>/ohrs/atomic/<archive name>`.
pub open spec fn unpack_root(target: Seq<char>) -> Seq<char> {
    crate::paths::path_join(ohrs_dir(target, "atomic"@), ARCHIVE_NAME@)
}

/// The file whose presence says that the archive has been unpacked.
pub open spec fn unpack_marker(target: Seq<char>) -> Seq<char> {
    crate::paths::path_join(unpack_root(target), ".unpacked"@)
}

/// The unpacked library for a profile, an ABI and a linkage.
pub open spec fn bundled_lib(target: Seq<char>, release: bool, abi: Seq<char>, linkage: Linkage) -> Seq<
    char,
> {
    crate::paths::path_join(
        crate::paths::path_join(crate::paths::path_join(unpack_root(target), profile_of(release)), abi),
        linkage.file_name_spec(),
    )
}

/// The directory offered to the linker: `<target>/ohrs/atomic-link/<linkage
/// dir>/<profile>/<abi>`.
pub open spec fn link_dir(target: Seq<char>, release: bool, abi: Seq<char>, linkage: Linkage) -> Seq<
    char,
> {
    crate::paths::path_join(
        crate::paths::path_join(
            crate::paths::path_join(ohrs_dir(target, "atomic-link"@), linkage.dir_name_spec()),
            profile_of(release),
        ),
        abi,
    )
}

/// The message for a library that the unpacked archive lacks.
pub open spec fn missing_lib_message(linkage: Linkage, release: bool, arch: Arch, lib: Seq<char>) -> Seq<
    char,
> {
    "Bundled OHOS "@ + linkage.file_name_spec() + " not found for "@ + profile_of(release)
        + " profile and "@ + crate::arch::abi_name_of(arch) + ": "@ + lib
}

/// Where the archive is unpacked (see `unpack_root`).
pub fn unpack_root_of(cargo_target_dir: &str) -> (r: String)
    ensures
        r@ == unpack_root(cargo_target_dir@),
{
    let a = join_path(cargo_target_dir, "ohrs");
    let b = join_path(a.as_str(), "atomic");
    join_path(b.as_str(), ARCHIVE_NAME)
}

/// The marker file of the unpacked archive (see `unpack_marker`).
pub fn unpack_marker_of(cargo_target_dir: &str) -> (r: String)
    ensures
        r@ == unpack_marker(cargo_target_dir@),
{
    let root = unpack_root_of(cargo_target_dir);
    join_path(root.as_str(), ".unpacked")
}

/// Where the unpacked library for the profile, architecture and linkage
/// would be; an error for an architecture the archive does not cover.
pub fn bundled_lib_candidate(cargo_target_dir: &str, release: bool, arch: Arch, linkage: Linkage) -> (r:
    Result<String, String>)
    ensures
        match archive_abi_of(arch) {
            Some(abi) => r matches Ok(p) && p@ == bundled_lib(cargo_target_dir@, release, abi, linkage),
            None => r matches Err(m) && m@ == no_loongarch_message(),
        },
{
    let abi = archive_abi(arch)?;
    let root = unpack_root_of(cargo_target_dir);
    let a = join_path(root.as_str(), profile_name(release));
    let b = join_path(a.as_str(), abi);
    Ok(join_path(b.as_str(), linkage.file_name()))
}

/// The unpacked library for the profile, architecture and linkage, given
/// whether the file system reported the candidate (`bundled_lib_candidate`)
/// to be a file: the candidate when it is, else the message that it is
/// missing.
pub fn lib_path(cargo_target_dir: &str, release: bool, arch: Arch, linkage: Linkage, candidate_is_file: bool) -> (r:
    Result<String, String>)
    ensures
        match archive_abi_of(arch) {
            Some(abi) => if candidate_is_file {
                r matches Ok(p) && p@ == bundled_lib(cargo_target_dir@, release, abi, linkage)
            } else {
                r matches Err(m) && m@ == missing_lib_message(
                    linkage,
                    release,
                    arch,
                    bundled_lib(cargo_target_dir@, release, abi, linkage),
                )
            },
            None => r matches Err(m) && m@ == no_loongarch_message(),
        },
{
    let lib = bundled_lib_candidate(cargo_target_dir, release, arch, linkage)?;
    if candidate_is_file {
        Ok(lib)
    } else {
        Err(
            "Bundled OHOS ".to_owned().concat(linkage.file_name()).concat(" not found for ").concat(
                profile_name(release),
            ).concat(" profile and ").concat(arch.to_arch()).concat(": ").concat(lib.as_str()),
        )
    }
}

/// The directory offered to the linker for the profile, architecture and
/// linkage (see `link_dir`); an error for an architecture the archive does
/// not cover.
pub fn search_dir_path(cargo_target_dir: &str, release: bool, arch: Arch, linkage: Linkage) -> (r: Result<
    String,
    String,
>)
    ensures
        match archive_abi_of(arch) {
            Some(abi) => r matches Ok(p) && p@ == link_dir(cargo_target_dir@, release, abi, linkage),
            None => r matches Err(m) && m@ == no_loongarch_message(),
        },
{
    let abi = archive_abi(arch)?;
    let a = join_path(cargo_target_dir, "ohrs");
    let b = join_path(a.as_str(), "atomic-link");
    let c = join_path(b.as_str(), linkage.dir_name());
    let d = join_path(c.as_str(), profile_name(release));
    Ok(join_path(d.as_str(), abi))
}

} // verus!

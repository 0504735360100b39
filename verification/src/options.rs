//! The options of each subcommand, as the command-line parser fills them.

use vstd::prelude::*;
use crate::arch::Arch;

verus! {

/// `ohrs init`.
#[derive(Debug, Clone)]
pub struct InitArgs {
    pub package_name: Option<String>,
    pub name: String,
}

/// `ohrs build`.
#[derive(Debug, Clone)]
pub struct BuildArgs {
    /// The output directory, relative to the working directory.
    pub dist: String,
    /// The architectures to build; all three main ones when not given.
    pub arch: Option<Vec<Arch>>,
    pub release: bool,
    /// Whether static libraries are copied to the output too.
    pub copy_static: bool,
    /// Whether the libraries are left uncopied.
    pub skip_libs: bool,
    /// Whether the type-definition cache of an earlier build is reused.
    pub dts_cache: bool,
    /// Where the temporary type definitions go, instead of cargo's target
    /// directory.
    pub target_dir: Option<String>,
    /// Extra arguments for `cargo build`.
    pub cargo_args: Option<Vec<String>>,
    /// The workspace package to build.
    pub package: Option<String>,
    /// The `SONAME` to give the library.
    pub soname: Option<String>,
    /// Whether the BiSheng toolchain of the HarmonyOS NDK is used.
    pub bisheng: bool,
    /// Whether the bundled `libatomic` is linked statically.
    pub sta_atomic: bool,
    /// Whether the bundled `libatomic` is linked dynamically.
    pub dyn_atomic: bool,
    /// The value of `NAPI_BUILD_TARGET_NAME`; `entry` when not given.
    pub build_target_name: Option<String>,
}

/// `ohrs artifact`.
#[derive(Debug, Clone)]
pub struct ArtifactArgs {
    pub dist: String,
    pub name: String,
    pub skip_libs: bool,
    pub package: Option<String>,
}

/// `ohrs cargo`.
#[derive(Debug, Clone)]
pub struct CargoArgs {
    /// The architectures to run for; arm64 when not given.
    pub arch: Option<Vec<Arch>>,
    pub bisheng: bool,
    /// Whether no `--target` is added and the command runs once, for the
    /// target given among the arguments.
    pub disable_target: bool,
    /// The cargo command and its arguments.
    pub args: Vec<String>,
    /// The workspace package to run for.
    pub package: Option<String>,
    /// The `SONAME` to give the library.
    pub soname: Option<String>,
}

/// A parsed command line.
#[derive(Debug, Clone)]
pub enum Options {
    Init(InitArgs),
    Build(BuildArgs),
    Artifact(ArtifactArgs),
    Cargo(CargoArgs),
    Publish,
    Doctor,
}

} // verus!

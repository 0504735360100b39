//! Verified core of the `ohrs` HarmonyOS build tool: the parsing, path
//! computation, command-line assembly and runtime-library resolution that
//! drive a native OHOS build, with the process and file-system work left to
//! the caller.

pub mod arch;
pub mod text;
pub mod needed;
pub mod paths;
pub mod runtime;
pub mod search;
pub mod resolver;
pub mod ledger;
pub mod envmap;
pub mod toolchain;
pub mod atomic;
pub mod soname;
pub mod workspace;
pub mod options;
pub mod cargo_plan;
pub mod native_env;
pub mod hash;
pub mod build_plan;
pub mod artifact_plan;
pub mod doctor;
pub mod init_plan;
pub mod cli;
pub mod publish;
pub mod ark;
pub mod module_load;
pub mod ohos_setup;

//! The libraries a native build ships for run time, and the rule for the
//! names they are loaded by: a needed library's name must be a bare file
//! name, so that it is looked for directly inside a search directory (the
//! resolution itself is in `resolver`).

use vstd::prelude::*;
use crate::paths::file_name_of;

verus! {

broadcast use vstd::string::group_string_axioms;

/// A library that the build output needs at run time: where it was found
/// and the name it is loaded by.
#[derive(Debug, Clone, PartialEq, Eq)]
pub struct RuntimeLibrary {
    pub source: String,
    pub soname: String,
}

impl View for RuntimeLibrary {
    type V = (Seq<char>, Seq<char>);

    open spec fn view(&self) -> (Seq<char>, Seq<char>) {
        (self.source@, self.soname@)
    }
}

/// The views of a sequence of libraries.
pub open spec fn library_views(v: Seq<RuntimeLibrary>) -> Seq<(Seq<char>, Seq<char>)> {
    v.map_values(|l: RuntimeLibrary| l@)
}

/// Why a library name reported by an ELF file is refused.
#[derive(Debug, Clone, PartialEq, Eq)]
pub enum SonameError {
    /// The name is not a bare file name: it holds a `/`, or is empty, `.`
    /// or `..`, so it could point outside the directory it is looked in.
    NotAFileName,
}

/// Whether `soname` is a bare file name: it is its own file name.
pub open spec fn is_bare_file_name(soname: Seq<char>) -> bool {
    crate::paths::path_file_name(soname) == Some(soname)
}

/// Accepts a library name only when it is a bare file name, so that it
/// names a file directly inside the directory it is looked for in.
pub fn validate_soname(soname: &str) -> (r: Result<(), SonameError>)
    ensures
        r is Ok <==> is_bare_file_name(soname@),
{
    match file_name_of(soname) {
        Some(f) => {
            if f == soname.to_owned() {
                Ok(())
            } else {
                Err(SonameError::NotAFileName)
            }
        },
        None => Err(SonameError::NotAFileName),
    }
}

} // verus!

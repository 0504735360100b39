//! `ohrs publish`: which `.har` archive is handed to `ohpm publish`.

use vstd::prelude::*;
use crate::paths::join_path;
use crate::text::contains_text;

verus! {

broadcast use vstd::string::group_string_axioms;

/// Removes a generated archive; there is nothing to remove yet.
pub fn remove_har() {
}

/// The archive published: `package` (by default `package.har`), taken
/// from the working directory when it is a relative path.
pub open spec fn publish_target_of(pwd: Seq<char>, package: Option<Seq<char>>) -> Seq<char> {
    let pkg = match package {
        Some(p) => p,
        None => "package.har"@,
    };
    if pkg.len() > 0 && pkg[0] == '/' {
        pkg
    } else {
        crate::paths::path_join(pwd, pkg)
    }
}

/// The archive published (see `publish_target_of`).
pub fn publish_target(pwd: &str, package: &Option<String>) -> (r: String)
    ensures
        r@ == publish_target_of(
            pwd@,
            match package {
                Some(p) => Some(p@),
                None => None,
            },
        ),
{
    let pkg = match package {
        Some(p) => p.clone(),
        None => "package.har".to_owned(),
    };
    let v = crate::text::chars_of(pkg.as_str());
    if v.len() > 0 && v[0] == '/' {
        pkg
    } else {
        join_path(pwd, pkg.as_str())
    }
}

/// What is done with a piece of what `ohpm publish` prints.
#[derive(Debug, PartialEq, Eq, Structural, Clone, Copy)]
pub enum PublishOutput {
    /// A complaint about the key path: passed over.
    Skip,
    /// Shown, and reading goes on.
    Show,
    /// Shown, and reading stops: `ohpm` waits for the private key.
    ShowAndStop,
}

/// The text in the output of `ohpm publish` that is passed over.
pub open spec fn key_path_error() -> Seq<char> {
    "key_path error."@
}

/// The text by which `ohpm publish` asks for the private key.
pub open spec fn private_key_prompt() -> Seq<char> {
    "private key:"@
}

/// What is done with `chunk`: passed over when it holds the key-path
/// complaint, else shown, and reading stops when it holds the prompt for
/// the private key.
pub open spec fn publish_output_of(chunk: Seq<char>) -> PublishOutput {
    if crate::text::contains_seq(chunk, key_path_error()) {
        PublishOutput::Skip
    } else if crate::text::contains_seq(chunk, private_key_prompt()) {
        PublishOutput::ShowAndStop
    } else {
        PublishOutput::Show
    }
}

/// What is done with a piece of `ohpm publish` output (see
/// `publish_output_of`).
pub fn publish_output(chunk: &str) -> (r: PublishOutput)
    ensures
        r == publish_output_of(chunk@),
{
    proof {
        reveal_strlit("key_path error.");
        reveal_strlit("private key:");
    }
    if contains_text(chunk, "key_path error.") {
        PublishOutput::Skip
    } else if contains_text(chunk, "private key:") {
        PublishOutput::ShowAndStop
    } else {
        PublishOutput::Show
    }
}

} // verus!

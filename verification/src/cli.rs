//! The command line of `ohrs`: its subcommands and their arguments, as
//! plain values (the parser itself lives with the program).

use vstd::prelude::*;

verus! {

/// The whole command line.
pub struct OhrsCli {
    pub command: Commands,
}

/// The subcommands.
pub enum Commands {
    /// Initialize a project.
    Init(InitArg),
    /// Build a project.
    Build(BuildArg),
    /// Check the environment.
    Doctor,
    /// Publish an ohpm package.
    Publish(PublishArg),
    /// Generate a har package.
    Artifact(ArtifactArg),
}

/// `init`: the project's name, and whether an ohpm package is made too,
/// with its own name.
pub struct InitArg {
    pub name: String,
    pub package: bool,
    pub package_name: Option<String>,
}

/// `build`: the output directory, release mode, stripping and the
/// architectures.
pub struct BuildArg {
    pub dist: String,
    pub release: bool,
    pub strip: Option<bool>,
    pub arch: Option<Vec<String>>,
}

/// `publish`: the ohpm token and the package's path.
pub struct PublishArg {
    pub token: String,
    pub package: Option<String>,
}

/// `artifact`: the package name and the output directory.
pub struct ArtifactArg {
    pub name: String,
    pub dist: String,
}

impl Default for BuildArg {
    fn default() -> (r: BuildArg)
        ensures
            r.dist@.len() == 0,
            !r.release,
            r.strip is None,
            r.arch is None,
    {
        BuildArg { dist: String::new(), release: false, strip: None, arch: None }
    }
}

impl Default for PublishArg {
    fn default() -> (r: PublishArg)
        ensures
            r.token@.len() == 0,
            r.package is None,
    {
        PublishArg { token: String::new(), package: None }
    }
}

impl Default for ArtifactArg {
    fn default() -> (r: ArtifactArg)
        ensures
            r.name@.len() == 0,
            r.dist@.len() == 0,
    {
        ArtifactArg { name: String::new(), dist: String::new() }
    }
}

/// Whether `strip` asks for stripping: `--strip` alone or `--strip=true`
/// does, `--strip=false` does not; without it, a release build is
/// stripped.
pub open spec fn strip_wanted(strip: Option<bool>, release: bool) -> bool {
    match strip {
        Some(s) => s,
        None => release,
    }
}

impl BuildArg {
    /// Whether the build's output is stripped (see `strip_wanted`).
    pub fn wants_strip(&self) -> (r: bool)
        ensures
            r == strip_wanted(self.strip, self.release),
    {
        match self.strip {
            Some(s) => s,
            None => self.release,
        }
    }
}

} // verus!

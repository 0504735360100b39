//! `ohrs build`: the packages and architectures built, where each
//! package's output and temporary type definitions go, the arguments of
//! `cargo build`, and which of the produced files are copied out.

use vstd::prelude::*;
use crate::arch::Arch;
use crate::envmap::EnvMap;
use crate::hash::short_hash;
use crate::paths::{file_name_of, join_path, parent_of, path_has_extension, same_path};
use crate::workspace::PackageInfo;

verus! {

broadcast use vstd::string::group_string_axioms;

/// The `[package.metadata.template]` table of a package: the header put
/// at the top of the generated type definitions.
#[derive(Debug, Clone)]
pub struct Template {
    pub header: Option<String>,
}

/// The views of a sequence of strings.
pub open spec fn svs(v: Seq<String>) -> Seq<Seq<char>> {
    crate::text::string_views(v)
}

/// The view of an optional string.
pub open spec fn ov(o: Option<String>) -> Option<Seq<char>> {
    match o {
        Some(s) => Some(s@),
        None => None,
    }
}

/// The view of optional strings.
pub open spec fn ovs(o: Option<Vec<String>>) -> Option<Seq<Seq<char>>> {
    match o {
        Some(v) => Some(svs(v@)),
        None => None,
    }
}

/// The arguments that every `cargo build` starts with: `build`, and
/// `--release` for a release build when extra cargo arguments were given
/// and do not hold it already.
pub open spec fn init_args_of(release: bool, cargo_args: Option<Seq<Seq<char>>>) -> Seq<Seq<char>> {
    seq!["build"@] + match cargo_args {
        Some(a) => if release && !a.contains("--release"@) {
            seq!["--release"@]
        } else {
            Seq::<Seq<char>>::empty()
        },
        None => Seq::<Seq<char>>::empty(),
    }
}

fn contains_str(v: &Vec<String>, x: &str) -> (r: bool)
    ensures
        r == svs(v@).contains(x@),
{
    let owned = x.to_owned();
    crate::search::contains_string(v, &owned)
}

/// The arguments every `cargo build` starts with (see `init_args_of`).
pub fn init_args(release: bool, cargo_args: &Option<Vec<String>>) -> (r: Vec<String>)
    ensures
        svs(r@) == init_args_of(release, ovs(*cargo_args)),
{
    let mut v: Vec<String> = Vec::new();
    v.push("build".to_owned());
    match cargo_args {
        Some(a) => {
            if release && !contains_str(a, "--release") {
                v.push("--release".to_owned());
            }
        },
        None => {},
    }
    assert(svs(v@) =~= init_args_of(release, ovs(*cargo_args)));
    v
}

/// The file that receives a package's type definitions, in the temporary
/// directory: `<name>-<hash>.napi_type_def.tmp` when the cache is reused,
/// else with `_<millis>` before `.tmp` so that each build has its own.
pub open spec fn type_def_file_of(
    tmp_dir: Seq<char>,
    name: Seq<char>,
    manifest: Seq<char>,
    dts_cache: bool,
    millis: Seq<char>,
) -> Seq<char> {
    let base = name + "-"@ + crate::hash::hex_of(crate::hash::sha256_digest(manifest)).subrange(0, 8)
        + ".napi_type_def"@;
    crate::paths::path_join(
        tmp_dir,
        if dts_cache {
            base + ".tmp"@
        } else {
            base + "_"@ + millis + ".tmp"@
        },
    )
}

/// The file that receives a package's type definitions (see
/// `type_def_file_of`); `millis` is the current time in milliseconds.
pub fn type_def_file(tmp_dir: &str, name: &str, manifest: &str, dts_cache: bool, millis: &str) -> (r: String)
    ensures
        r@ == type_def_file_of(tmp_dir@, name@, manifest@, dts_cache, millis@),
{
    let hash = short_hash(manifest);
    let base = name.to_owned().concat("-").concat(hash.as_str()).concat(".napi_type_def");
    let file = if dts_cache {
        base.concat(".tmp")
    } else {
        base.concat("_").concat(millis).concat(".tmp")
    };
    join_path(tmp_dir, file.as_str())
}

/// The packages built.  In a workspace (`workspace` not empty): the one
/// named by `filter`, or all of them; outside one: the current package,
/// which `filter` must name if it is given.
pub open spec fn build_selection(
    workspace: Seq<PackageInfo>,
    current: Option<PackageInfo>,
    filter: Option<Seq<char>>,
) -> Result<Option<Seq<int>>, Seq<char>> {
    if workspace.len() > 0 {
        match filter {
            Some(f) => match first_named(workspace, f) {
                Some(k) => Ok(Some(seq![k])),
                None => Err("Package '"@ + f + "' not found in workspace"@),
            },
            None => Ok(Some(Seq::new(workspace.len(), |i: int| i))),
        }
    } else {
        match current {
            Some(p) => match filter {
                Some(f) => if p.name@ != f {
                    Err("Package '"@ + f + "' not found. Current package is '"@ + p.name@ + "'"@)
                } else {
                    Ok(None)
                },
                None => Ok(None),
            },
            None => Err("No package to build"@),
        }
    }
}

/// The first package named `name`.
pub open spec fn first_named(pkgs: Seq<PackageInfo>, name: Seq<char>) -> Option<int>
    decreases pkgs.len(),
{
    if pkgs.len() == 0 {
        None
    } else {
        match first_named(pkgs.drop_last(), name) {
            Some(k) => Some(k),
            None => if pkgs.last().name@ == name {
                Some(pkgs.len() - 1)
            } else {
                None
            },
        }
    }
}

proof fn lemma_first_named(pkgs: Seq<PackageInfo>, name: Seq<char>)
    ensures
        first_named(pkgs, name) matches Some(k) ==> 0 <= k < pkgs.len() && pkgs[k].name@ == name
            && forall|j: int| 0 <= j < k ==> pkgs[j].name@ != name,
        first_named(pkgs, name) is None ==> forall|j: int| 0 <= j < pkgs.len() ==> pkgs[j].name@ != name,
    decreases pkgs.len(),
{
    if pkgs.len() > 0 {
        lemma_first_named(pkgs.drop_last(), name);
        assert forall|j: int| 0 <= j < pkgs.len() - 1 implies pkgs.drop_last()[j] == pkgs[j] by {}
    }
}

/// The packages built (see `build_selection`): indices into `workspace`,
/// or `None` for the current package alone.
pub fn select_build_packages(
    workspace: &Vec<PackageInfo>,
    current: &Option<PackageInfo>,
    filter: &Option<String>,
) -> (r: Result<Option<Vec<usize>>, String>)
    ensures
        match r {
            Ok(Some(v)) => build_selection(workspace@, *current, ov(*filter)) == Ok::<
                Option<Seq<int>>,
                Seq<char>,
            >(Some(crate::workspace::index_view(v@))),
            Ok(None) => build_selection(workspace@, *current, ov(*filter)) == Ok::<
                Option<Seq<int>>,
                Seq<char>,
            >(None),
            Err(m) => build_selection(workspace@, *current, ov(*filter)) == Err::<
                Option<Seq<int>>,
                Seq<char>,
            >(m@),
        },
{
    if workspace.len() > 0 {
        match filter {
            Some(f) => {
                proof {
                    lemma_first_named(workspace@, f@);
                }
                let mut k: usize = 0;
                while k < workspace.len()
                    invariant
                        k <= workspace@.len(),
                        workspace@.len() > 0,
                        ov(*filter) == Some(f@),
                        forall|j: int| 0 <= j < k ==> workspace@[j].name@ != f@,
                        first_named(workspace@, f@) matches Some(t) ==> k <= t,
                        first_named(workspace@, f@) matches Some(t) ==> workspace@[t].name@ == f@
                            && forall|j: int| 0 <= j < t ==> workspace@[j].name@ != f@,
                        first_named(workspace@, f@) is None ==> forall|j: int|
                            0 <= j < workspace@.len() ==> workspace@[j].name@ != f@,
                    decreases workspace@.len() - k,
                {
                    if workspace[k].name == *f {
                        assert(first_named(workspace@, f@) == Some(k as int));
                        assert(ov(*filter) == Some(f@));
                        let mut one: Vec<usize> = Vec::new();
                        one.push(k);
                        assert(crate::workspace::index_view(one@) =~= seq![k as int]);
                        return Ok(Some(one));
                    }
                    k = k + 1;
                }
                Err("Package '".to_owned().concat(f.as_str()).concat("' not found in workspace"))
            },
            None => {
                let mut all: Vec<usize> = Vec::new();
                let mut i: usize = 0;
                while i < workspace.len()
                    invariant
                        i <= workspace@.len(),
                        crate::workspace::index_view(all@) == Seq::new(i as nat, |t: int| t),
                    decreases workspace@.len() - i,
                {
                    let ghost before = crate::workspace::index_view(all@);
                    all.push(i);
                    assert(crate::workspace::index_view(all@) =~= before.push(i as int));
                    assert(Seq::new((i + 1) as nat, |t: int| t) =~= Seq::new(i as nat, |t: int| t).push(
                        i as int,
                    ));
                    i = i + 1;
                }
                Ok(Some(all))
            },
        }
    } else {
        match current {
            Some(p) => match filter {
                Some(f) => {
                    if p.name != *f {
                        Err(
                            "Package '".to_owned().concat(f.as_str()).concat(
                                "' not found. Current package is '",
                            ).concat(p.name.as_str()).concat("'"),
                        )
                    } else {
                        Ok(None)
                    }
                },
                None => Ok(None),
            },
            None => Err("No package to build".to_owned()),
        }
    }
}

/// Where a package's output goes when several workspace packages are
/// built from the workspace root: a directory of the same name in the
/// package's own directory, when the output directory lies directly in the
/// working directory; otherwise the output directory itself.
pub open spec fn package_dist_of(
    dist: Seq<char>,
    pwd: Seq<char>,
    manifest_dir: Option<Seq<char>>,
    several: bool,
) -> Seq<char> {
    match manifest_dir {
        Some(md) => if several && match crate::paths::path_parent(dist) {
            Some(p) => crate::paths::path_components(p) == crate::paths::path_components(pwd),
            None => false,
        } {
            crate::paths::path_join(
                md,
                match crate::paths::path_file_name(dist) {
                    Some(n) => n,
                    None => "dist"@,
                },
            )
        } else {
            dist
        },
        None => dist,
    }
}

/// Where a package's output goes (see `package_dist_of`).
pub fn package_dist(dist: &str, pwd: &str, manifest_dir: &Option<String>, several: bool) -> (r: String)
    ensures
        r@ == package_dist_of(dist@, pwd@, ov(*manifest_dir), several),
{
    match manifest_dir {
        Some(md) => {
            let in_root = match parent_of(dist) {
                Some(p) => same_path(p.as_str(), pwd),
                None => false,
            };
            if several && in_root {
                let name = match file_name_of(dist) {
                    Some(n) => n,
                    None => "dist".to_owned(),
                };
                join_path(md.as_str(), name.as_str())
            } else {
                dist.to_owned()
            }
        },
        None => dist.to_owned(),
    }
}

/// The directory for a package's temporary type definitions:
/// `<target>/ohos-rs/<name>-<hash>`, with `_<millis>` added unless the
/// cache is reused.
pub open spec fn type_def_dir_of(
    target_dir: Seq<char>,
    name: Seq<char>,
    manifest: Seq<char>,
    dts_cache: bool,
    millis: Seq<char>,
) -> Seq<char> {
    let p = crate::paths::path_join(
        crate::paths::path_join(target_dir, "ohos-rs"@),
        name + "-"@ + crate::hash::hex_of(crate::hash::sha256_digest(manifest)).subrange(0, 8),
    );
    if dts_cache {
        p
    } else {
        p + "_"@ + millis
    }
}

/// The directory for a package's temporary type definitions (see
/// `type_def_dir_of`).
pub fn type_def_dir(target_dir: &str, name: &str, manifest: &str, dts_cache: bool, millis: &str) -> (r:
    String)
    ensures
        r@ == type_def_dir_of(target_dir@, name@, manifest@, dts_cache, millis@),
{
    let hash = short_hash(manifest);
    let base = join_path(target_dir, "ohos-rs");
    let leaf = name.to_owned().concat("-").concat(hash.as_str());
    let p = join_path(base.as_str(), leaf.as_str());
    if dts_cache {
        p
    } else {
        p.concat("_").concat(millis)
    }
}

/// The architectures built, in the order arm64, arm, x86_64, loongarch64:
/// those asked for, or the first three.
pub open spec fn build_arches_of(arch: Option<Seq<Arch>>) -> Seq<Arch> {
    let chosen = match arch {
        Some(a) => a,
        None => seq![Arch::ARM64, Arch::ARM32, Arch::X86_64],
    };
    arches_among(seq![Arch::ARM64, Arch::ARM32, Arch::X86_64, Arch::LoongArch64], chosen)
}

/// The elements of `all` that `chosen` holds, in the order of `all`.
pub open spec fn arches_among(all: Seq<Arch>, chosen: Seq<Arch>) -> Seq<Arch>
    decreases all.len(),
{
    if all.len() == 0 {
        Seq::<Arch>::empty()
    } else if chosen.contains(all.last()) {
        arches_among(all.drop_last(), chosen).push(all.last())
    } else {
        arches_among(all.drop_last(), chosen)
    }
}

fn arch_in(v: &Vec<Arch>, a: Arch) -> (r: bool)
    ensures
        r == v@.contains(a),
{
    let mut i: usize = 0;
    while i < v.len()
        invariant
            i <= v@.len(),
            forall|j: int| 0 <= j < i ==> v@[j] != a,
        decreases v@.len() - i,
    {
        if v[i] == a {
            return true;
        }
        i = i + 1;
    }
    false
}

/// The architectures built (see `build_arches_of`).
pub fn build_arches(arch: &Option<Vec<Arch>>) -> (r: Vec<Arch>)
    ensures
        r@ == build_arches_of(
            match arch {
                Some(a) => Some(a@),
                None => None,
            },
        ),
{
    let chosen = match arch {
        Some(a) => a.clone(),
        None => vec![Arch::ARM64, Arch::ARM32, Arch::X86_64],
    };
    let ghost cv = match arch {
        Some(a) => a@,
        None => seq![Arch::ARM64, Arch::ARM32, Arch::X86_64],
    };
    proof {
        match arch {
            Some(a) => {
                assert(chosen@ =~= a@);
            },
            None => {
                assert(chosen@ =~= seq![Arch::ARM64, Arch::ARM32, Arch::X86_64]);
            },
        }
    }
    let all = vec![Arch::ARM64, Arch::ARM32, Arch::X86_64, Arch::LoongArch64];
    let ghost av = seq![Arch::ARM64, Arch::ARM32, Arch::X86_64, Arch::LoongArch64];
    assert(all@ =~= av);
    let mut out: Vec<Arch> = Vec::new();
    let mut i: usize = 0;
    while i < 4
        invariant
            i <= 4,
            all@ == av,
            av.len() == 4,
            chosen@ == cv,
            out@ == arches_among(av.subrange(0, i as int), cv),
        decreases 4 - i,
    {
        let a = all[i];
        assert(av.subrange(0, i + 1).drop_last() =~= av.subrange(0, i as int));
        if arch_in(&chosen, a) {
            out.push(a);
        }
        i = i + 1;
    }
    assert(av.subrange(0, 4) =~= av);
    out
}

/// The arguments of `cargo build` for an architecture: the initial
/// arguments (on nightly with `-Z build-std` for loongarch64), the target,
/// JSON messages, the package as `name@version` when several workspace
/// packages exist and the extra arguments name none, then the extra
/// arguments.
pub open spec fn build_cargo_args_of(
    arch: Arch,
    init: Seq<Seq<char>>,
    package: Option<PackageInfo>,
    workspace_count: int,
    cargo_args: Seq<Seq<char>>,
) -> Seq<Seq<char>> {
    (if arch == Arch::LoongArch64 {
        seq!["+nightly"@] + init + seq!["-Z"@, "build-std"@]
    } else {
        init
    }) + seq!["--target"@, crate::arch::rust_target_of(arch), "--message-format=json-render-diagnostics"@]
        + (match package {
        Some(p) => if !crate::cargo_plan::has_package_flag(cargo_args) && workspace_count > 1 {
            seq!["-p"@, crate::cargo_plan::package_spec_of(p)]
        } else {
            Seq::<Seq<char>>::empty()
        },
        None => Seq::<Seq<char>>::empty(),
    }) + cargo_args
}


fn has_package_flag_in(args: &Vec<String>) -> (r: bool)
    ensures
        r == crate::cargo_plan::has_package_flag(svs(args@)),
{
    let mut i: usize = 0;
    while i < args.len()
        invariant
            i <= args@.len(),
            forall|j: int| 0 <= j < i ==> !crate::cargo_plan::is_package_flag(#[trigger] svs(args@)[j]),
        decreases args@.len() - i,
    {
        assert(svs(args@)[i as int] == args@[i as int]@);
        if args[i] == "-p".to_owned() || args[i] == "--package".to_owned() {
            return true;
        }
        i = i + 1;
    }
    false
}

/// The arguments of `cargo build` for an architecture (see
/// `build_cargo_args_of`).
pub fn build_cargo_args(
    arch: Arch,
    init: &Vec<String>,
    package: &Option<PackageInfo>,
    workspace_count: usize,
    cargo_args: &Vec<String>,
) -> (r: Vec<String>)
    ensures
        svs(r@) == build_cargo_args_of(arch, svs(init@), *package, workspace_count as int, svs(cargo_args@)),
{
    let mut out: Vec<String> = Vec::new();
    let is_loong = match arch {
        Arch::LoongArch64 => true,
        _ => false,
    };
    if is_loong {
        out.push("+nightly".to_owned());
        let ghost a0 = svs(out@);
        assert(a0 =~= seq!["+nightly"@]);
        crate::text::push_strings(&mut out, init);
        let ghost a1 = svs(out@);
        out.push("-Z".to_owned());
        out.push("build-std".to_owned());
        assert(svs(out@) =~= a1 + seq!["-Z"@, "build-std"@]);
    } else {
        assert(svs(out@) =~= Seq::<Seq<char>>::empty());
        crate::text::push_strings(&mut out, init);
        assert(svs(out@) =~= svs(init@));
    }
    let ghost first = svs(out@);
    assert(first =~= (if arch == Arch::LoongArch64 {
        seq!["+nightly"@] + svs(init@) + seq!["-Z"@, "build-std"@]
    } else {
        svs(init@)
    }));
    out.push("--target".to_owned());
    out.push(arch.rust_target().to_owned());
    out.push("--message-format=json-render-diagnostics".to_owned());
    let ghost second = svs(out@);
    match package {
        Some(p) => {
            if !has_package_flag_in(cargo_args) && workspace_count > 1 {
                out.push("-p".to_owned());
                out.push(p.name.clone().concat("@").concat(p.version.as_str()));
            }
        },
        None => {},
    }
    assert(svs(out@) =~= first + seq![
        "--target"@,
        crate::arch::rust_target_of(arch),
        "--message-format=json-render-diagnostics"@,
    ] + (match *package {
        Some(p) => if !crate::cargo_plan::has_package_flag(svs(cargo_args@)) && workspace_count > 1 {
            seq!["-p"@, crate::cargo_plan::package_spec_of(p)]
        } else {
            Seq::<Seq<char>>::empty()
        },
        None => Seq::<Seq<char>>::empty(),
    }));
    crate::text::push_strings(&mut out, cargo_args);
    out
}

/// Whether the build is a release one, for the bundled `libatomic`:
/// `--release` is among the initial or the extra arguments.
pub fn atomic_release(init: &Vec<String>, cargo_args: &Vec<String>) -> (r: bool)
    ensures
        r == (svs(init@).contains("--release"@) || svs(cargo_args@).contains("--release"@)),
{
    contains_str(init, "--release") || contains_str(cargo_args, "--release")
}

/// Whether a produced file is copied to the output: every one when static
/// libraries are wanted, else all but `.a` files.
pub fn copies_artifact(path: &str, copy_static: bool) -> (r: bool)
    ensures
        r == (copy_static || !crate::paths::has_extension(path@, "a"@)),
{
    copy_static || !path_has_extension(path, "a")
}

/// What copying `source` as `file_name` into the output decides, given
/// the names already copied (`copied`, each bound to the identity of its
/// source): skip when the same file was copied under that name, fail when
/// another was, copy otherwise.
pub open spec fn copy_decision_of(
    copied: Map<Seq<char>, Seq<char>>,
    file_name: Seq<char>,
    identity: Seq<char>,
    source: Seq<char>,
) -> Result<bool, Seq<char>> {
    if copied.contains_key(file_name) {
        if copied[file_name] == identity {
            Ok(false)
        } else {
            Err(
                "Multiple artifacts resolve to '"@ + file_name + "': "@ + copied[file_name] + " and "@
                    + source,
            )
        }
    } else {
        Ok(true)
    }
}

/// Decides whether to copy `source` as `file_name` (see
/// `copy_decision_of`); `identity` is its canonical form, or `source` when
/// that could not be had.  `Ok(true)` asks for the copy, after which the
/// caller records `file_name` with `identity`.
pub fn copy_decision(copied: &EnvMap, file_name: &str, identity: &str, source: &str) -> (r: Result<
    bool,
    String,
>)
    requires
        copied.wf(),
    ensures
        match r {
            Ok(b) => copy_decision_of(copied@, file_name@, identity@, source@) == Ok::<
                bool,
                Seq<char>,
            >(b),
            Err(m) => copy_decision_of(copied@, file_name@, identity@, source@) == Err::<
                bool,
                Seq<char>,
            >(m@),
        },
{
    match copied.get(file_name) {
        Some(existing) => {
            if existing == identity.to_owned() {
                Ok(false)
            } else {
                Err(
                    "Multiple artifacts resolve to '".to_owned().concat(file_name).concat("': ").concat(
                        existing.as_str(),
                    ).concat(" and ").concat(source),
                )
            }
        },
        None => Ok(true),
    }
}

/// The libraries of a compiled artifact that belong to the package being
/// built: none when the artifact is another package's; else its file
/// names with extension `so` or `a` that the file system reported as files
/// (`is_file[i]` for `filenames[i]`).
pub open spec fn artifact_libraries_of(
    artifact_package: Seq<char>,
    package: Seq<char>,
    filenames: Seq<Seq<char>>,
    is_file: Seq<bool>,
) -> Seq<Seq<char>>
    decreases filenames.len(),
{
    if artifact_package != package || filenames.len() == 0 {
        Seq::<Seq<char>>::empty()
    } else {
        let rest = artifact_libraries_of(
            artifact_package,
            package,
            filenames.drop_last(),
            is_file,
        );
        let f = filenames.last();
        if (crate::paths::has_extension(f, "so"@) || crate::paths::has_extension(f, "a"@))
            && 0 <= filenames.len() - 1 < is_file.len() && is_file[filenames.len() - 1] {
            rest.push(f)
        } else {
            rest
        }
    }
}

/// The libraries of a compiled artifact (see `artifact_libraries_of`).
pub fn artifact_libraries(
    artifact_package: &str,
    package: &str,
    filenames: &Vec<String>,
    is_file: &Vec<bool>,
) -> (r: Vec<String>)
    ensures
        svs(r@) == artifact_libraries_of(artifact_package@, package@, svs(filenames@), is_file@),
{
    let mut out: Vec<String> = Vec::new();
    if artifact_package.to_owned() != package.to_owned() {
        return out;
    }
    let ghost fv = svs(filenames@);
    let mut i: usize = 0;
    while i < filenames.len()
        invariant
            i <= filenames@.len(),
            fv == svs(filenames@),
            artifact_package@ == package@,
            svs(out@) == artifact_libraries_of(artifact_package@, package@, fv.subrange(0, i as int), is_file@),
        decreases filenames@.len() - i,
    {
        assert(fv.subrange(0, i + 1).drop_last() =~= fv.subrange(0, i as int));
        assert(fv.subrange(0, i + 1).last() == filenames@[i as int]@);
        let f = &filenames[i];
        let lib = path_has_extension(f.as_str(), "so") || path_has_extension(f.as_str(), "a");
        if lib && i < is_file.len() && is_file[i] {
            let ghost before = svs(out@);
            out.push(f.clone());
            assert(svs(out@) =~= before.push(f@));
        }
        i = i + 1;
    }
    assert(fv.subrange(0, filenames@.len() as int) =~= fv);
    out
}

/// The directories of `files`, in order, for those that have one.
pub open spec fn parent_dirs_of(files: Seq<Seq<char>>) -> Seq<Seq<char>>
    decreases files.len(),
{
    if files.len() == 0 {
        Seq::<Seq<char>>::empty()
    } else {
        match crate::paths::path_parent(files.last()) {
            Some(p) => parent_dirs_of(files.drop_last()).push(p),
            None => parent_dirs_of(files.drop_last()),
        }
    }
}

/// The directories of `files` (see `parent_dirs_of`).
pub fn parent_dirs(files: &Vec<String>) -> (r: Vec<String>)
    ensures
        svs(r@) == parent_dirs_of(svs(files@)),
{
    let ghost fv = svs(files@);
    let mut out: Vec<String> = Vec::new();
    let mut i: usize = 0;
    while i < files.len()
        invariant
            i <= files@.len(),
            fv == svs(files@),
            svs(out@) == parent_dirs_of(fv.subrange(0, i as int)),
        decreases files@.len() - i,
    {
        assert(fv.subrange(0, i + 1).drop_last() =~= fv.subrange(0, i as int));
        assert(fv.subrange(0, i + 1).last() == files@[i as int]@);
        match parent_of(files[i].as_str()) {
            Some(p) => {
                let ghost before = svs(out@);
                let ghost pv = p@;
                out.push(p);
                assert(svs(out@) =~= before.push(pv));
            },
            None => {},
        }
        i = i + 1;
    }
    assert(fv.subrange(0, files@.len() as int) =~= fv);
    out
}

/// Once a name is recorded with a source's identity, copying that source
/// under the name again is skipped, and copying any other source under it
/// fails: no name of the output is ever filled from two files.
pub proof fn lemma_copy_once(
    copied: Map<Seq<char>, Seq<char>>,
    file_name: Seq<char>,
    identity: Seq<char>,
    other: Seq<char>,
    source: Seq<char>,
)
    ensures
        copy_decision_of(copied.insert(file_name, identity), file_name, identity, source) == Ok::<
            bool,
            Seq<char>,
        >(false),
        other != identity ==> copy_decision_of(copied.insert(file_name, identity), file_name, other, source) is Err,
{
}

/// The architectures built hold none twice, and each was asked for (or is
/// one of the three built by default).
pub proof fn lemma_build_arches(arch: Option<Seq<Arch>>)
    ensures
        build_arches_of(arch).no_duplicates(),
        forall|a: Arch| #[trigger] build_arches_of(arch).contains(a) ==> (match arch {
            Some(c) => c,
            None => seq![Arch::ARM64, Arch::ARM32, Arch::X86_64],
        }).contains(a),
{
    let chosen = match arch {
        Some(c) => c,
        None => seq![Arch::ARM64, Arch::ARM32, Arch::X86_64],
    };
    let all = seq![Arch::ARM64, Arch::ARM32, Arch::X86_64, Arch::LoongArch64];
    lemma_arches_among(all, chosen);
}

proof fn lemma_arches_among(all: Seq<Arch>, chosen: Seq<Arch>)
    requires
        all.no_duplicates(),
    ensures
        arches_among(all, chosen).no_duplicates(),
        forall|a: Arch| #[trigger] arches_among(all, chosen).contains(a) ==> chosen.contains(a) && all.contains(a),
    decreases all.len(),
{
    if all.len() > 0 {
        let p = all.drop_last();
        assert(p.no_duplicates()) by {
            assert forall|i: int, j: int| 0 <= i < p.len() && 0 <= j < p.len() && i != j implies p[i]
                != p[j] by {
                assert(p[i] == all[i] && p[j] == all[j]);
            }
        }
        lemma_arches_among(p, chosen);
        let r = arches_among(p, chosen);
        assert forall|a: Arch| #[trigger] arches_among(all, chosen).contains(a) implies chosen.contains(a)
            && all.contains(a) by {
            let t = arches_among(all, chosen);
            let k = choose|k: int| 0 <= k < t.len() && t[k] == a;
            if k < r.len() && t[k] == r[k] {
                assert(r.contains(a));
                let j = choose|j: int| 0 <= j < p.len() && p[j] == a;
                assert(all[j] == a);
            } else {
                assert(a == all.last());
                assert(all[all.len() - 1] == a);
            }
        }
        if chosen.contains(all.last()) {
            assert(!r.contains(all.last())) by {
                if r.contains(all.last()) {
                    let j = choose|j: int| 0 <= j < p.len() && p[j] == all.last();
                    assert(all[j] == all[all.len() - 1]);
                }
            }
            let t = r.push(all.last());
            assert forall|i: int, j: int| 0 <= i < t.len() && 0 <= j < t.len() && i != j implies t[i]
                != t[j] by {
                if i < r.len() && j < r.len() {
                    assert(t[i] == r[i] && t[j] == r[j]);
                } else if i < r.len() {
                    assert(t[i] == r[i]);
                    assert(r.contains(r[i]));
                } else if j < r.len() {
                    assert(t[j] == r[j]);
                    assert(r.contains(r[j]));
                }
            }
        }
    }
}

proof fn lemma_arches_among_complete(all: Seq<Arch>, chosen: Seq<Arch>)
    ensures
        forall|a: Arch| chosen.contains(a) && all.contains(a) ==> #[trigger] arches_among(all, chosen).contains(a),
    decreases all.len(),
{
    if all.len() > 0 {
        let p = all.drop_last();
        lemma_arches_among_complete(p, chosen);
        let r = arches_among(p, chosen);
        assert forall|a: Arch| chosen.contains(a) && all.contains(a) implies #[trigger] arches_among(
            all,
            chosen,
        ).contains(a) by {
            let k = choose|k: int| 0 <= k < all.len() && all[k] == a;
            if k < p.len() {
                assert(p[k] == a);
                assert(p.contains(a));
                assert(r.contains(a));
                if chosen.contains(all.last()) {
                    let j = choose|j: int| 0 <= j < r.len() && r[j] == a;
                    assert(r.push(all.last())[j] == a);
                }
            } else {
                assert(a == all.last());
                assert(r.push(all.last())[r.len() as int] == a);
            }
        }
    }
}

/// Every architecture asked for is built: with `--arch`, each one given;
/// without it, arm64, arm and x86_64.
pub proof fn lemma_asked_arches_are_built(arch: Option<Seq<Arch>>)
    ensures
        forall|a: Arch|
            (match arch {
                Some(c) => c,
                None => seq![Arch::ARM64, Arch::ARM32, Arch::X86_64],
            }).contains(a) ==> #[trigger] build_arches_of(arch).contains(a),
{
    let chosen = match arch {
        Some(c) => c,
        None => seq![Arch::ARM64, Arch::ARM32, Arch::X86_64],
    };
    let all = seq![Arch::ARM64, Arch::ARM32, Arch::X86_64, Arch::LoongArch64];
    lemma_arches_among_complete(all, chosen);
    assert forall|a: Arch| chosen.contains(a) implies #[trigger] build_arches_of(arch).contains(a) by {
        match a {
            Arch::ARM64 => assert(all[0] == a),
            Arch::ARM32 => assert(all[1] == a),
            Arch::X86_64 => assert(all[2] == a),
            Arch::LoongArch64 => assert(all[3] == a),
        }
        assert(all.contains(a));
    }
}

/// The place of an architecture in the order builds run in.
pub open spec fn build_rank(a: Arch) -> int {
    match a {
        Arch::ARM64 => 0,
        Arch::ARM32 => 1,
        Arch::X86_64 => 2,
        Arch::LoongArch64 => 3,
    }
}

/// The architectures are built in one fixed order, arm64, arm, x86_64,
/// loongarch64, whatever order they were asked for in.
pub proof fn lemma_arches_built_in_order(arch: Option<Seq<Arch>>)
    ensures
        forall|i: int, j: int|
            0 <= i < j < build_arches_of(arch).len() ==> build_rank(#[trigger] build_arches_of(arch)[i]) < build_rank(
                #[trigger] build_arches_of(arch)[j],
            ),
{
    reveal_with_fuel(arches_among, 5);
    let chosen = match arch {
        Some(c) => c,
        None => seq![Arch::ARM64, Arch::ARM32, Arch::X86_64],
    };
    let all = seq![Arch::ARM64, Arch::ARM32, Arch::X86_64, Arch::LoongArch64];
    assert(all.drop_last() =~= seq![Arch::ARM64, Arch::ARM32, Arch::X86_64]);
    assert(all.drop_last().drop_last() =~= seq![Arch::ARM64, Arch::ARM32]);
    assert(all.drop_last().drop_last().drop_last() =~= seq![Arch::ARM64]);
    assert(all.drop_last().drop_last().drop_last().drop_last() =~= Seq::<Arch>::empty());
    let r = build_arches_of(arch);
    assert forall|i: int, j: int| 0 <= i < j < r.len() implies build_rank(#[trigger] r[i]) < build_rank(
        #[trigger] r[j],
    ) by {
        let r1 = arches_among(seq![Arch::ARM64], chosen);
        let r2 = arches_among(seq![Arch::ARM64, Arch::ARM32], chosen);
        let r3 = arches_among(seq![Arch::ARM64, Arch::ARM32, Arch::X86_64], chosen);
        assert(forall|k: int| 0 <= k < r1.len() ==> build_rank(#[trigger] r1[k]) == 0);
        assert(forall|k: int| 0 <= k < r2.len() ==> build_rank(#[trigger] r2[k]) <= 1 && build_rank(r2[k]) >= k);
        assert(forall|k: int| 0 <= k < r3.len() ==> build_rank(#[trigger] r3[k]) <= 2 && build_rank(r3[k]) >= k);
        assert(forall|k: int| 0 <= k < r.len() ==> build_rank(#[trigger] r[k]) <= 3 && build_rank(r[k]) >= k);
    }
}

/// `<ndk>/native/llvm/bin/llvm-strip`, the tool that strips the output.
pub open spec fn strip_tool_of(ndk: Seq<char>) -> Seq<char> {
    ndk + "/native/llvm/bin/llvm-strip"@
}

/// The tool that strips the output (see `strip_tool_of`).
pub fn strip_tool(ndk: &str) -> (r: String)
    ensures
        r@ == strip_tool_of(ndk@),
{
    ndk.to_owned().concat("/native/llvm/bin/llvm-strip")
}

} // verus!

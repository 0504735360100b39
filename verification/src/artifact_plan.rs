//! `ohrs artifact`: which packages are packed into `.har` files, where
//! each one's `package` folder, built libraries and archive are, and what
//! stops the command when the file system does not have them.

use vstd::prelude::*;
use crate::options::ArtifactArgs;
use crate::paths::join_path;
use crate::workspace::PackageInfo;

verus! {

broadcast use vstd::string::group_string_axioms;

/// How a path is written by `{:?}`: quoted, with the characters that need
/// it escaped.
pub uninterp spec fn debug_text(path: Seq<char>) -> Seq<char>;

/// `format!("{:?}", Path::new(path))`: the path's `Debug` form, named by
/// `debug_text`; what the escaping does is not stated.
#[verifier::external_body]
fn path_debug(path: &str) -> (r: String)
    ensures
        r@ == debug_text(path@),
{
    format!("{:?}", std::path::Path::new(path))
}

/// The work for one `.har` archive.
pub struct ArtifactJob {
    /// The package, when several are packed.
    pub package: Option<String>,
    /// The `package` folder that is archived.
    pub package_source: String,
    /// The built libraries in the package's own directory, preferred when
    /// they exist.
    pub dist_in_package: Option<String>,
    /// The built libraries otherwise.
    pub dist_default: String,
    /// Where the libraries are copied: `libs` in the `package` folder.
    pub libs_dir: String,
    /// The archive written.
    pub har: String,
    /// Whether problems with the libraries are reported with the
    /// `package` folder's path rather than their own.
    pub report_source_for_dist: bool,
}

/// A job over plain values.
pub struct JobModel {
    pub package: Option<Seq<char>>,
    pub package_source: Seq<char>,
    pub dist_in_package: Option<Seq<char>>,
    pub dist_default: Seq<char>,
    pub libs_dir: Seq<char>,
    pub har: Seq<char>,
    pub report_source_for_dist: bool,
}

/// The view of an optional string.
pub open spec fn ov(o: Option<String>) -> Option<Seq<char>> {
    match o {
        Some(s) => Some(s@),
        None => None,
    }
}

impl View for ArtifactJob {
    type V = JobModel;

    open spec fn view(&self) -> JobModel {
        JobModel {
            package: ov(self.package),
            package_source: self.package_source@,
            dist_in_package: ov(self.dist_in_package),
            dist_default: self.dist_default@,
            libs_dir: self.libs_dir@,
            har: self.har@,
            report_source_for_dist: self.report_source_for_dist,
        }
    }
}

/// The views of a sequence of jobs.
pub open spec fn job_views(v: Seq<ArtifactJob>) -> Seq<JobModel> {
    v.map_values(|j: ArtifactJob| j@)
}

/// The job for one package of several: its own directory holds the
/// `package` folder, the preferred libraries and the archive
/// `<name>-<package>.har`; without one, the working directory does.
pub open spec fn workspace_job(p: PackageInfo, name: Seq<char>, dist: Seq<char>, pwd: Seq<char>) -> JobModel {
    let source = match p.manifest_dir {
        Some(md) => crate::paths::path_join(md@, "package"@),
        None => crate::paths::path_join(crate::paths::path_join(pwd, "package"@), p.name@),
    };
    let har_name = name + "-"@ + p.name@ + ".har"@;
    JobModel {
        package: Some(p.name@),
        package_source: source,
        dist_in_package: match p.manifest_dir {
            Some(md) => Some(crate::paths::path_join(md@, dist)),
            None => None,
        },
        dist_default: crate::paths::path_join(crate::paths::path_join(pwd, dist), p.name@),
        libs_dir: crate::paths::path_join(source, "libs"@),
        har: match p.manifest_dir {
            Some(md) => crate::paths::path_join(md@, har_name),
            None => crate::paths::path_join(pwd, har_name),
        },
        report_source_for_dist: false,
    }
}

/// The job for a single package: everything in the working directory.
pub open spec fn single_job(name: Seq<char>, dist: Seq<char>, pwd: Seq<char>) -> JobModel {
    let source = crate::paths::path_join(pwd, "package"@);
    JobModel {
        package: None,
        package_source: source,
        dist_in_package: None,
        dist_default: crate::paths::path_join(pwd, dist),
        libs_dir: crate::paths::path_join(source, "libs"@),
        har: crate::paths::path_join(pwd, name + ".har"@),
        report_source_for_dist: true,
    }
}

/// The indices of `sel` whose package is named `name`.
pub open spec fn retained(pkgs: Seq<PackageInfo>, sel: Seq<int>, name: Seq<char>) -> Seq<int> {
    crate::cargo_plan::named(pkgs, sel, name)
}

/// The jobs for the packages `chosen`.
pub open spec fn workspace_jobs(
    pkgs: Seq<PackageInfo>,
    chosen: Seq<int>,
    name: Seq<char>,
    dist: Seq<char>,
    pwd: Seq<char>,
) -> Seq<JobModel> {
    Seq::new(chosen.len(), |i: int| workspace_job(pkgs[chosen[i]], name, dist, pwd))
}

/// The jobs of `ohrs artifact`, or why there are none: `sel` are the
/// packages using `napi-derive-ohos` (see `select_napi_packages`), several
/// of them making a workspace; `--package` keeps the one it names.
pub open spec fn artifact_plan(
    name: Seq<char>,
    dist: Seq<char>,
    package: Option<Seq<char>>,
    pwd: Seq<char>,
    pkgs: Seq<PackageInfo>,
    sel: Seq<int>,
) -> Result<Seq<JobModel>, Seq<char>> {
    if sel.len() == 0 {
        Err("No package found with napi-derive-ohos dependency."@)
    } else {
        let kept = match package {
            Some(n) => retained(pkgs, sel, n),
            None => sel,
        };
        if kept.len() == 0 {
            Err("Package '"@ + package->0 + "' not found or does not use napi-derive-ohos"@)
        } else if sel.len() > 1 {
            Ok(workspace_jobs(pkgs, kept, name, dist, pwd))
        } else {
            Ok(seq![single_job(name, dist, pwd)])
        }
    }
}

fn workspace_job_exec(p: &PackageInfo, name: &str, dist: &str, pwd: &str) -> (r: ArtifactJob)
    ensures
        r@ == workspace_job(*p, name@, dist@, pwd@),
{
    let source = match &p.manifest_dir {
        Some(md) => join_path(md.as_str(), "package"),
        None => {
            let a = join_path(pwd, "package");
            join_path(a.as_str(), p.name.as_str())
        },
    };
    let har_name = name.to_owned().concat("-").concat(p.name.as_str()).concat(".har");
    let dist_root = join_path(pwd, dist);
    ArtifactJob {
        package: Some(p.name.clone()),
        libs_dir: join_path(source.as_str(), "libs"),
        package_source: source,
        dist_in_package: match &p.manifest_dir {
            Some(md) => Some(join_path(md.as_str(), dist)),
            None => None,
        },
        dist_default: join_path(dist_root.as_str(), p.name.as_str()),
        har: match &p.manifest_dir {
            Some(md) => join_path(md.as_str(), har_name.as_str()),
            None => join_path(pwd, har_name.as_str()),
        },
        report_source_for_dist: false,
    }
}

/// The jobs of `ohrs artifact` (see `artifact_plan`).
pub fn plan_artifacts(args: &ArtifactArgs, pwd: &str, pkgs: &Vec<PackageInfo>, sel: &Vec<usize>) -> (r:
    Result<Vec<ArtifactJob>, String>)
    requires
        forall|i: int| 0 <= i < sel@.len() ==> sel@[i] < pkgs@.len(),
    ensures
        match r {
            Ok(v) => artifact_plan(
                args.name@,
                args.dist@,
                ov(args.package),
                pwd@,
                pkgs@,
                crate::workspace::index_view(sel@),
            ) == Ok::<Seq<JobModel>, Seq<char>>(job_views(v@)),
            Err(m) => artifact_plan(
                args.name@,
                args.dist@,
                ov(args.package),
                pwd@,
                pkgs@,
                crate::workspace::index_view(sel@),
            ) == Err::<Seq<JobModel>, Seq<char>>(m@),
        },
{
    if sel.len() == 0 {
        return Err("No package found with napi-derive-ohos dependency.".to_owned());
    }
    let kept: Vec<usize> = match &args.package {
        Some(n) => crate::cargo_plan::named_of(pkgs, sel, n),
        None => sel.clone(),
    };
    proof {
        if args.package is None {
            assert(kept@ =~= sel@);
        }
    }
    if kept.len() == 0 {
        match &args.package {
            Some(n) => {
                return Err(
                    "Package '".to_owned().concat(n.as_str()).concat(
                        "' not found or does not use napi-derive-ohos",
                    ),
                );
            },
            None => {},
        }
    }
    let mut jobs: Vec<ArtifactJob> = Vec::new();
    if sel.len() > 1 {
        let ghost kv = crate::workspace::index_view(kept@);
        let ghost all = workspace_jobs(pkgs@, kv, args.name@, args.dist@, pwd@);
        let mut i: usize = 0;
        while i < kept.len()
            invariant
                i <= kept@.len(),
                kv == crate::workspace::index_view(kept@),
                all == workspace_jobs(pkgs@, kv, args.name@, args.dist@, pwd@),
                forall|t: int| 0 <= t < kept@.len() ==> kept@[t] < pkgs@.len(),
                job_views(jobs@) == all.subrange(0, i as int),
            decreases kept@.len() - i,
        {
            let job = workspace_job_exec(&pkgs[kept[i]], args.name.as_str(), args.dist.as_str(), pwd);
            let ghost before = job_views(jobs@);
            jobs.push(job);
            assert(job_views(jobs@) =~= before.push(all[i as int]));
            assert(all.subrange(0, i + 1) =~= all.subrange(0, i as int).push(all[i as int]));
            i = i + 1;
        }
        assert(all.subrange(0, kept@.len() as int) =~= all);
    } else {
        let source = join_path(pwd, "package");
        let har_name = args.name.clone().concat(".har");
        jobs.push(
            ArtifactJob {
                package: None,
                libs_dir: join_path(source.as_str(), "libs"),
                package_source: source,
                dist_in_package: None,
                dist_default: join_path(pwd, args.dist.as_str()),
                har: join_path(pwd, har_name.as_str()),
                report_source_for_dist: true,
            },
        );
        assert(job_views(jobs@) =~= seq![single_job(args.name@, args.dist@, pwd@)]);
    }
    Ok(jobs)
}

/// What stops a job at its `package` folder: that it does not exist, or
/// that it is not a folder.
pub open spec fn source_check_of(source: Seq<char>, exists: bool, is_dir: bool) -> Result<(), Seq<char>> {
    if !exists {
        Err(debug_text(source) + " is not existed,please create this folder"@)
    } else if !is_dir {
        Err(debug_text(source) + " is not a folder,please create this folder"@)
    } else {
        Ok(())
    }
}

/// Checks a job's `package` folder (see `source_check_of`), given what the
/// file system reported of it.
pub fn check_package_source(job: &ArtifactJob, exists: bool, is_dir: bool) -> (r: Result<(), String>)
    ensures
        match r {
            Ok(()) => source_check_of(job.package_source@, exists, is_dir) is Ok,
            Err(m) => source_check_of(job.package_source@, exists, is_dir) == Err::<(), Seq<char>>(m@),
        },
{
    if !exists {
        Err(path_debug(job.package_source.as_str()).concat(" is not existed,please create this folder"))
    } else if !is_dir {
        Err(path_debug(job.package_source.as_str()).concat(" is not a folder,please create this folder"))
    } else {
        Ok(())
    }
}

/// The libraries a job copies: those in the package's own directory when
/// the file system reported them to exist, else the default ones.
pub fn choose_dist(job: &ArtifactJob, in_package_exists: bool) -> (r: String)
    ensures
        r@ == match job@.dist_in_package {
            Some(d) => if in_package_exists {
                d
            } else {
                job@.dist_default
            },
            None => job@.dist_default,
        },
{
    match &job.dist_in_package {
        Some(d) => if in_package_exists {
            d.clone()
        } else {
            job.dist_default.clone()
        },
        None => job.dist_default.clone(),
    }
}

/// What stops a job at its libraries: that they are not a folder, or that
/// the folder is empty; reported with the path the job reports them by.
pub open spec fn dist_check_of(job: JobModel, dist: Seq<char>, is_dir: bool, has_entries: bool) -> Result<
    (),
    Seq<char>,
> {
    let shown = if job.report_source_for_dist {
        job.package_source
    } else {
        dist
    };
    if !is_dir {
        Err(debug_text(shown) + " is not a folder,please confirm your dist path."@)
    } else if !has_entries {
        Err(debug_text(shown) + " is empty,please run build before artifact."@)
    } else {
        Ok(())
    }
}

/// Checks the libraries a job copies (see `dist_check_of`), given what the
/// file system reported of them.
pub fn check_dist(job: &ArtifactJob, dist: &str, is_dir: bool, has_entries: bool) -> (r: Result<(), String>)
    ensures
        match r {
            Ok(()) => dist_check_of(job@, dist@, is_dir, has_entries) is Ok,
            Err(m) => dist_check_of(job@, dist@, is_dir, has_entries) == Err::<(), Seq<char>>(m@),
        },
{
    let shown = if job.report_source_for_dist {
        job.package_source.clone()
    } else {
        dist.to_owned()
    };
    if !is_dir {
        Err(path_debug(shown.as_str()).concat(" is not a folder,please confirm your dist path."))
    } else if !has_entries {
        Err(path_debug(shown.as_str()).concat(" is empty,please run build before artifact."))
    } else {
        Ok(())
    }
}

} // verus!

//! `ohrs cargo`: which cargo invocations a command line stands for, for
//! each selected workspace package and each architecture, with the
//! arguments each one gets.

use vstd::prelude::*;
use crate::arch::Arch;
use crate::options::CargoArgs;
use crate::soname::normalize_soname;
use crate::workspace::PackageInfo;

verus! {

broadcast use vstd::string::group_string_axioms;

/// Whether an argument names a package to work on.
pub open spec fn is_package_flag(a: Seq<char>) -> bool {
    a == "-p"@ || a == "--package"@
}

/// What follows the first `-p` or `--package` among `args`, if anything
/// does.
pub open spec fn package_flag_value(args: Seq<Seq<char>>) -> Option<Seq<char>>
    decreases args.len(),
{
    if args.len() == 0 {
        None
    } else if is_package_flag(args[0]) {
        if args.len() > 1 {
            Some(args[1])
        } else {
            None
        }
    } else {
        package_flag_value(args.drop_first())
    }
}

/// Whether `args` hold `-p` or `--package`.
pub open spec fn has_package_flag(args: Seq<Seq<char>>) -> bool {
    exists|i: int| 0 <= i < args.len() && is_package_flag(#[trigger] args[i])
}

/// What follows the first `--target` among `args` that something follows.
pub open spec fn target_flag_value(args: Seq<Seq<char>>) -> Option<Seq<char>>
    decreases args.len(),
{
    if args.len() < 2 {
        None
    } else if args[0] == "--target"@ {
        Some(args[1])
    } else {
        target_flag_value(args.drop_first())
    }
}

/// The architectures to run for: those given (arm64 when none are), or,
/// with `--disable-target`, the one whose Rust target is given with
/// `--target` among the arguments.
pub open spec fn cargo_arches(arch: Option<Seq<Arch>>, disable_target: bool, rest: Seq<Seq<char>>) -> Result<
    Seq<Arch>,
    Seq<char>,
> {
    if !disable_target {
        Ok(
            match arch {
                Some(a) => a,
                None => seq![Arch::ARM64],
            },
        )
    } else {
        match target_flag_value(rest) {
            Some(t) => if t == crate::arch::rust_target_of(Arch::ARM32) {
                Ok(seq![Arch::ARM32])
            } else if t == crate::arch::rust_target_of(Arch::ARM64) {
                Ok(seq![Arch::ARM64])
            } else if t == crate::arch::rust_target_of(Arch::X86_64) {
                Ok(seq![Arch::X86_64])
            } else {
                Err("Only support ohos target"@)
            },
            None => Err("You don't provide any target for current command."@),
        }
    }
}

/// The arguments of one cargo invocation: loongarch64 runs on nightly
/// with `-Z build-std`; a package is named when one is given; `--target`
/// is added unless disabled; the caller's remaining arguments come last.
pub open spec fn run_args(
    arch: Arch,
    command: Seq<char>,
    package_spec: Option<Seq<char>>,
    with_target: bool,
    rest: Seq<Seq<char>>,
) -> Seq<Seq<char>> {
    (if arch == Arch::LoongArch64 {
        seq!["+nightly"@]
    } else {
        Seq::<Seq<char>>::empty()
    }) + seq![command] + (match package_spec {
        Some(p) => seq!["-p"@, p],
        None => Seq::<Seq<char>>::empty(),
    }) + (if with_target {
        seq!["--target"@, crate::arch::rust_target_of(arch)]
    } else {
        Seq::<Seq<char>>::empty()
    }) + (if arch == Arch::LoongArch64 {
        seq!["-Z"@, "build-std"@]
    } else {
        Seq::<Seq<char>>::empty()
    }) + rest
}

/// `name@version`, which names a package without ambiguity.
pub open spec fn package_spec_of(p: PackageInfo) -> Seq<char> {
    p.name@ + "@"@ + p.version@
}

/// One cargo invocation, over plain values.
pub struct RunModel {
    pub arch: Arch,
    pub package: Option<Seq<char>>,
    pub first_of_package: bool,
    pub args: Seq<Seq<char>>,
    pub soname: Option<Seq<char>>,
}

/// One cargo invocation to run.
pub struct CargoRun {
    pub arch: Arch,
    /// The workspace package it is for, when it runs in a workspace.
    pub package: Option<String>,
    /// Whether it is the first invocation for its package.
    pub first_of_package: bool,
    pub args: Vec<String>,
    /// The completed `SONAME` to give the library, if one was asked for.
    pub soname: Option<String>,
}

/// The view of an optional string.
pub open spec fn opt_view(o: Option<String>) -> Option<Seq<char>> {
    match o {
        Some(s) => Some(s@),
        None => None,
    }
}

impl View for CargoRun {
    type V = RunModel;

    open spec fn view(&self) -> RunModel {
        RunModel {
            arch: self.arch,
            package: opt_view(self.package),
            first_of_package: self.first_of_package,
            args: crate::text::string_views(self.args@),
            soname: opt_view(self.soname),
        }
    }
}

/// The views of a sequence of runs.
pub open spec fn run_views(v: Seq<CargoRun>) -> Seq<RunModel> {
    v.map_values(|r: CargoRun| r@)
}

/// The invocations for one package (or none), one per architecture.
pub open spec fn runs_for(
    arches: Seq<Arch>,
    command: Seq<char>,
    package: Option<Seq<char>>,
    package_spec: Option<Seq<char>>,
    with_target: bool,
    rest: Seq<Seq<char>>,
    soname: Option<Seq<char>>,
) -> Seq<RunModel> {
    Seq::new(
        arches.len(),
        |i: int|
            RunModel {
                arch: arches[i],
                package,
                first_of_package: i == 0,
                args: run_args(arches[i], command, package_spec, with_target, rest),
                soname,
            },
    )
}

/// The invocations for each of `chosen`, in order.
pub open spec fn runs_for_packages(
    pkgs: Seq<PackageInfo>,
    chosen: Seq<int>,
    arches: Seq<Arch>,
    command: Seq<char>,
    with_target: bool,
    rest: Seq<Seq<char>>,
    soname: Option<Seq<char>>,
) -> Seq<RunModel>
    decreases chosen.len(),
{
    if chosen.len() == 0 {
        Seq::<RunModel>::empty()
    } else {
        let p = pkgs[chosen.last()];
        runs_for_packages(pkgs, chosen.drop_last(), arches, command, with_target, rest, soname)
            + runs_for(
            arches,
            command,
            Some(p.name@),
            if has_package_flag(rest) {
                None
            } else {
                Some(package_spec_of(p))
            },
            with_target,
            rest,
            soname,
        )
    }
}

/// The indices of `sel` whose package is named `name`.
pub open spec fn named(pkgs: Seq<PackageInfo>, sel: Seq<int>, name: Seq<char>) -> Seq<int>
    decreases sel.len(),
{
    if sel.len() == 0 {
        Seq::<int>::empty()
    } else {
        let rest = named(pkgs, sel.drop_last(), name);
        if pkgs[sel.last()].name@ == name {
            rest.push(sel.last())
        } else {
            rest
        }
    }
}

/// The message for a missing `OHOS_NDK_HOME`.
pub open spec fn ndk_missing_message() -> Seq<char> {
    "Failed to get the OHOS_NDK_HOME environment variable, please make sure you have set it."@
}

/// The invocations that `ohrs cargo` makes, or why it makes none.
/// `ndk_set` says whether `OHOS_NDK_HOME` is set; `sel` are the workspace
/// packages selected (see `select_workspace_packages`), a workspace being
/// more than one of them.  The `SONAME` is completed before the first
/// invocation, and a versioned one stops the command.
pub open spec fn cargo_plan(
    arch: Option<Seq<Arch>>,
    disable_target: bool,
    args: Seq<Seq<char>>,
    package: Option<Seq<char>>,
    soname: Option<Seq<char>>,
    ndk_set: bool,
    pkgs: Seq<PackageInfo>,
    sel: Seq<int>,
) -> Result<Seq<RunModel>, Seq<char>> {
    if !ndk_set {
        Err(ndk_missing_message())
    } else if args.len() == 0 {
        Err("You don't provide any command for current command."@)
    } else {
        let command = args[0];
        let rest = args.drop_first();
        match cargo_arches(arch, disable_target, rest) {
            Err(e) => Err(e),
            Ok(arches) => {
                let filter = match package {
                    Some(p) => Some(p),
                    None => package_flag_value(rest),
                };
                let chosen = if sel.len() > 1 {
                    match filter {
                        Some(f) => named(pkgs, sel, f),
                        None => sel,
                    }
                } else {
                    Seq::<int>::empty()
                };
                if sel.len() > 1 && chosen.len() == 0 && filter is Some {
                    Err("Package '"@ + filter->0 + "' not found in workspace"@)
                } else if arches.len() == 0 {
                    Ok(Seq::<RunModel>::empty())
                } else {
                    let normalized = match soname {
                        Some(s) => if crate::soname::is_versioned_soname(s) {
                            Err(crate::soname::versioned_soname_message(s))
                        } else {
                            Ok(Some(crate::soname::normalized_soname(s)))
                        },
                        None => Ok(None),
                    };
                    match normalized {
                        Err(m) => Err(m),
                        Ok(so) => if sel.len() > 1 {
                            Ok(
                                runs_for_packages(
                                    pkgs,
                                    chosen,
                                    arches,
                                    command,
                                    !disable_target,
                                    rest,
                                    so,
                                ),
                            )
                        } else {
                            Ok(runs_for(arches, command, None, None, !disable_target, rest, so))
                        },
                    }
                }
            },
        }
    }
}

fn package_flag_value_exec(args: &Vec<String>) -> (r: Option<String>)
    ensures
        opt_view(r) == package_flag_value(crate::text::string_views(args@)),
{
    let ghost av = crate::text::string_views(args@);
    assert(av.subrange(0, av.len() as int) =~= av);
    let mut i: usize = 0;
    while i < args.len()
        invariant
            i <= args@.len(),
            av == crate::text::string_views(args@),
            package_flag_value(av.subrange(i as int, av.len() as int)) == package_flag_value(av),
        decreases args@.len() - i,
    {
        let ghost sub = av.subrange(i as int, av.len() as int);
        assert(sub[0] == args@[i as int]@);
        if args[i] == "-p".to_owned() || args[i] == "--package".to_owned() {
            if i + 1 < args.len() {
                assert(sub[1] == args@[i + 1]@);
                return Some(args[i + 1].clone());
            }
            return None;
        }
        assert(sub.drop_first() =~= av.subrange(i + 1, av.len() as int));
        i = i + 1;
    }
    None
}

/// The package a command is limited to: the one given with `--package`,
/// else what follows `-p` or `--package` among the cargo arguments.
pub fn package_filter(explicit: &Option<String>, cargo_args: &Vec<String>) -> (r: Option<String>)
    ensures
        opt_view(r) == match opt_view(*explicit) {
            Some(p) => Some(p),
            None => package_flag_value(crate::text::string_views(cargo_args@)),
        },
{
    match explicit {
        Some(p) => Some(p.clone()),
        None => package_flag_value_exec(cargo_args),
    }
}

fn has_package_flag_exec(args: &Vec<String>) -> (r: bool)
    ensures
        r == has_package_flag(crate::text::string_views(args@)),
{
    let ghost av = crate::text::string_views(args@);
    let mut i: usize = 0;
    while i < args.len()
        invariant
            i <= args@.len(),
            av == crate::text::string_views(args@),
            forall|j: int| 0 <= j < i ==> !is_package_flag(#[trigger] av[j]),
        decreases args@.len() - i,
    {
        assert(av[i as int] == args@[i as int]@);
        if args[i] == "-p".to_owned() || args[i] == "--package".to_owned() {
            return true;
        }
        i = i + 1;
    }
    false
}

fn target_flag_value_exec(args: &Vec<String>) -> (r: Option<String>)
    ensures
        opt_view(r) == target_flag_value(crate::text::string_views(args@)),
{
    let ghost av = crate::text::string_views(args@);
    assert(av.subrange(0, av.len() as int) =~= av);
    let mut i: usize = 0;
    while i < args.len()
        invariant
            i <= args@.len(),
            av == crate::text::string_views(args@),
            target_flag_value(av.subrange(i as int, av.len() as int)) == target_flag_value(av),
        decreases args@.len() - i,
    {
        let ghost sub = av.subrange(i as int, av.len() as int);
        if i + 1 >= args.len() {
            return None;
        }
        assert(sub[0] == args@[i as int]@);
        assert(sub[1] == args@[i + 1]@);
        if args[i] == "--target".to_owned() {
            return Some(args[i + 1].clone());
        }
        assert(sub.drop_first() =~= av.subrange(i + 1, av.len() as int));
        i = i + 1;
    }
    None
}

fn cargo_arches_exec(arch: &Option<Vec<Arch>>, disable_target: bool, rest: &Vec<String>) -> (r: Result<
    Vec<Arch>,
    String,
>)
    ensures
        match r {
            Ok(v) => cargo_arches(
                match arch {
                    Some(a) => Some(a@),
                    None => None,
                },
                disable_target,
                crate::text::string_views(rest@),
            ) == Ok::<Seq<Arch>, Seq<char>>(v@),
            Err(m) => cargo_arches(
                match arch {
                    Some(a) => Some(a@),
                    None => None,
                },
                disable_target,
                crate::text::string_views(rest@),
            ) == Err::<Seq<Arch>, Seq<char>>(m@),
        },
{
    if !disable_target {
        let v = match arch {
            Some(a) => a.clone(),
            None => vec![Arch::ARM64],
        };
        proof {
            match arch {
                Some(a) => {
                    assert(v@ =~= a@);
                },
                None => {
                    assert(v@ =~= seq![Arch::ARM64]);
                },
            }
        }
        return Ok(v);
    }
    match target_flag_value_exec(rest) {
        Some(t) => {
            if t == Arch::ARM32.rust_target().to_owned() {
                let v = vec![Arch::ARM32];
                assert(v@ =~= seq![Arch::ARM32]);
                Ok(v)
            } else if t == Arch::ARM64.rust_target().to_owned() {
                let v = vec![Arch::ARM64];
                assert(v@ =~= seq![Arch::ARM64]);
                Ok(v)
            } else if t == Arch::X86_64.rust_target().to_owned() {
                let v = vec![Arch::X86_64];
                assert(v@ =~= seq![Arch::X86_64]);
                Ok(v)
            } else {
                Err("Only support ohos target".to_owned())
            }
        },
        None => Err("You don't provide any target for current command.".to_owned()),
    }
}


/// The arguments of one invocation (see `run_args`).
pub fn run_args_exec(
    arch: Arch,
    command: &String,
    package_spec: &Option<String>,
    with_target: bool,
    rest: &Vec<String>,
) -> (r: Vec<String>)
    ensures
        crate::text::string_views(r@) == run_args(
            arch,
            command@,
            opt_view(*package_spec),
            with_target,
            crate::text::string_views(rest@),
        ),
{
    let mut out: Vec<String> = Vec::new();
    let is_loong = match arch {
        Arch::LoongArch64 => true,
        _ => false,
    };
    if is_loong {
        out.push("+nightly".to_owned());
    }
    out.push(command.clone());
    match package_spec {
        Some(p) => {
            out.push("-p".to_owned());
            out.push(p.clone());
        },
        None => {},
    }
    if with_target {
        out.push("--target".to_owned());
        out.push(arch.rust_target().to_owned());
    }
    if is_loong {
        out.push("-Z".to_owned());
        out.push("build-std".to_owned());
    }
    let ghost before = crate::text::string_views(out@);
    assert(before =~= (if arch == Arch::LoongArch64 {
        seq!["+nightly"@]
    } else {
        Seq::<Seq<char>>::empty()
    }) + seq![command@] + (match opt_view(*package_spec) {
        Some(p) => seq!["-p"@, p],
        None => Seq::<Seq<char>>::empty(),
    }) + (if with_target {
        seq!["--target"@, crate::arch::rust_target_of(arch)]
    } else {
        Seq::<Seq<char>>::empty()
    }) + (if arch == Arch::LoongArch64 {
        seq!["-Z"@, "build-std"@]
    } else {
        Seq::<Seq<char>>::empty()
    }));
    crate::text::push_strings(&mut out, rest);
    out
}

fn clone_opt(o: &Option<String>) -> (r: Option<String>)
    ensures
        opt_view(r) == opt_view(*o),
{
    match o {
        Some(s) => Some(s.clone()),
        None => None,
    }
}

fn push_runs_for(
    out: &mut Vec<CargoRun>,
    arches: &Vec<Arch>,
    command: &String,
    package: &Option<String>,
    package_spec: &Option<String>,
    with_target: bool,
    rest: &Vec<String>,
    soname: &Option<String>,
)
    ensures
        run_views(final(out)@) == run_views(old(out)@) + runs_for(
            arches@,
            command@,
            opt_view(*package),
            opt_view(*package_spec),
            with_target,
            crate::text::string_views(rest@),
            opt_view(*soname),
        ),
{
    let ghost start = run_views(out@);
    let ghost all = runs_for(
        arches@,
        command@,
        opt_view(*package),
        opt_view(*package_spec),
        with_target,
        crate::text::string_views(rest@),
        opt_view(*soname),
    );
    let mut i: usize = 0;
    while i < arches.len()
        invariant
            i <= arches@.len(),
            all == runs_for(
                arches@,
                command@,
                opt_view(*package),
                opt_view(*package_spec),
                with_target,
                crate::text::string_views(rest@),
                opt_view(*soname),
            ),
            run_views(out@) == start + all.subrange(0, i as int),
        decreases arches@.len() - i,
    {
        let run = CargoRun {
            arch: arches[i],
            package: clone_opt(package),
            first_of_package: i == 0,
            args: run_args_exec(arches[i], command, package_spec, with_target, rest),
            soname: clone_opt(soname),
        };
        assert(run@ == all[i as int]);
        let ghost before = run_views(out@);
        out.push(run);
        assert(run_views(out@) =~= before.push(all[i as int]));
        assert(all.subrange(0, i + 1) =~= all.subrange(0, i as int).push(all[i as int]));
        i = i + 1;
    }
    assert(all.subrange(0, arches@.len() as int) =~= all);
}

/// The indices of `sel` whose package is named `name` (see `named`).
pub fn named_of(pkgs: &Vec<PackageInfo>, sel: &Vec<usize>, name: &String) -> (r: Vec<usize>)
    requires
        forall|i: int| 0 <= i < sel@.len() ==> sel@[i] < pkgs@.len(),
    ensures
        crate::workspace::index_view(r@) == named(pkgs@, crate::workspace::index_view(sel@), name@),
        forall|i: int| 0 <= i < r@.len() ==> r@[i] < pkgs@.len(),
{
    let ghost sv = crate::workspace::index_view(sel@);
    let mut out: Vec<usize> = Vec::new();
    let mut i: usize = 0;
    while i < sel.len()
        invariant
            i <= sel@.len(),
            sv == crate::workspace::index_view(sel@),
            forall|t: int| 0 <= t < sel@.len() ==> sel@[t] < pkgs@.len(),
            crate::workspace::index_view(out@) == named(pkgs@, sv.subrange(0, i as int), name@),
            forall|t: int| 0 <= t < out@.len() ==> out@[t] < pkgs@.len(),
        decreases sel@.len() - i,
    {
        assert(sv.subrange(0, i + 1).drop_last() =~= sv.subrange(0, i as int));
        assert(sv.subrange(0, i + 1).last() == sel@[i as int] as int);
        let k = sel[i];
        if pkgs[k].name == *name {
            let ghost before = crate::workspace::index_view(out@);
            out.push(k);
            assert(crate::workspace::index_view(out@) =~= before.push(k as int));
        }
        i = i + 1;
    }
    assert(sv.subrange(0, sel@.len() as int) =~= sv);
    out
}

/// The invocations `ohrs cargo` makes (see `cargo_plan`).
pub fn plan_cargo(args: &CargoArgs, ndk_set: bool, pkgs: &Vec<PackageInfo>, sel: &Vec<usize>) -> (r: Result<
    Vec<CargoRun>,
    String,
>)
    requires
        forall|i: int| 0 <= i < sel@.len() ==> sel@[i] < pkgs@.len(),
    ensures
        match r {
            Ok(v) => cargo_plan(
                match args.arch {
                    Some(a) => Some(a@),
                    None => None,
                },
                args.disable_target,
                crate::text::string_views(args.args@),
                opt_view(args.package),
                opt_view(args.soname),
                ndk_set,
                pkgs@,
                crate::workspace::index_view(sel@),
            ) == Ok::<Seq<RunModel>, Seq<char>>(run_views(v@)),
            Err(m) => cargo_plan(
                match args.arch {
                    Some(a) => Some(a@),
                    None => None,
                },
                args.disable_target,
                crate::text::string_views(args.args@),
                opt_view(args.package),
                opt_view(args.soname),
                ndk_set,
                pkgs@,
                crate::workspace::index_view(sel@),
            ) == Err::<Seq<RunModel>, Seq<char>>(m@),
        },
{
    if !ndk_set {
        return Err(
            "Failed to get the OHOS_NDK_HOME environment variable, please make sure you have set it.".to_owned(),
        );
    }
    if args.args.len() < 1 {
        return Err("You don't provide any command for current command.".to_owned());
    }
    let ghost av = crate::text::string_views(args.args@);
    let command = args.args[0].clone();
    let mut rest: Vec<String> = Vec::new();
    let mut i: usize = 1;
    while i < args.args.len()
        invariant
            1 <= i <= args.args@.len(),
            av == crate::text::string_views(args.args@),
            crate::text::string_views(rest@) == av.subrange(1, i as int),
        decreases args.args@.len() - i,
    {
        let ghost before = crate::text::string_views(rest@);
        rest.push(args.args[i].clone());
        assert(crate::text::string_views(rest@) =~= before.push(args.args@[i as int]@));
        assert(av.subrange(1, i + 1) =~= av.subrange(1, i as int).push(av[i as int]));
        i = i + 1;
    }
    assert(av.subrange(1, av.len() as int) =~= av.drop_first());
    let arches = cargo_arches_exec(&args.arch, args.disable_target, &rest)?;
    let filter = match &args.package {
        Some(p) => Some(p.clone()),
        None => package_flag_value_exec(&rest),
    };
    let is_workspace = sel.len() > 1;
    let chosen: Vec<usize> = if is_workspace {
        match &filter {
            Some(f) => named_of(pkgs, sel, f),
            None => sel.clone(),
        }
    } else {
        Vec::new()
    };
    proof {
        if is_workspace && filter is None {
            assert(chosen@ =~= sel@);
        }
        if !is_workspace {
            assert(crate::workspace::index_view(chosen@) =~= Seq::<int>::empty());
        }
    }
    if is_workspace && chosen.len() == 0 {
        match &filter {
            Some(f) => {
                return Err("Package '".to_owned().concat(f.as_str()).concat("' not found in workspace"));
            },
            None => {},
        }
    }
    if arches.len() == 0 {
        let v: Vec<CargoRun> = Vec::new();
        assert(run_views(v@) =~= Seq::<RunModel>::empty());
        return Ok(v);
    }
    let so = match &args.soname {
        Some(s) => Some(normalize_soname(s.as_str())?),
        None => None,
    };
    let with_target = !args.disable_target;
    let mut runs: Vec<CargoRun> = Vec::new();
    if !is_workspace {
        push_runs_for(&mut runs, &arches, &command, &None, &None, with_target, &rest, &so);
        assert(run_views(runs@) =~= runs_for(
            arches@,
            command@,
            None,
            None,
            with_target,
            crate::text::string_views(rest@),
            opt_view(so),
        ));
        return Ok(runs);
    }
    let has_flag = has_package_flag_exec(&rest);
    let ghost cv = crate::workspace::index_view(chosen@);
    assert(run_views(runs@) =~= Seq::<RunModel>::empty());
    let mut j: usize = 0;
    while j < chosen.len()
        invariant
            j <= chosen@.len(),
            cv == crate::workspace::index_view(chosen@),
            forall|t: int| 0 <= t < chosen@.len() ==> chosen@[t] < pkgs@.len(),
            has_flag == has_package_flag(crate::text::string_views(rest@)),
            run_views(runs@) == runs_for_packages(
                pkgs@,
                cv.subrange(0, j as int),
                arches@,
                command@,
                with_target,
                crate::text::string_views(rest@),
                opt_view(so),
            ),
        decreases chosen@.len() - j,
    {
        assert(cv.subrange(0, j + 1).drop_last() =~= cv.subrange(0, j as int));
        assert(cv.subrange(0, j + 1).last() == chosen@[j as int] as int);
        let p = &pkgs[chosen[j]];
        let name = Some(p.name.clone());
        let spec_value = if has_flag {
            None
        } else {
            Some(p.name.clone().concat("@").concat(p.version.as_str()))
        };
        push_runs_for(&mut runs, &arches, &command, &name, &spec_value, with_target, &rest, &so);
        j = j + 1;
    }
    assert(cv.subrange(0, chosen@.len() as int) =~= cv);
    Ok(runs)
}

proof fn lemma_single_arch_runs(
    pkgs: Seq<PackageInfo>,
    chosen: Seq<int>,
    arches: Seq<Arch>,
    command: Seq<char>,
    with_target: bool,
    rest: Seq<Seq<char>>,
    soname: Option<Seq<char>>,
)
    requires
        arches.len() == 1,
    ensures
        runs_for_packages(pkgs, chosen, arches, command, with_target, rest, soname).len() == chosen.len(),
        forall|i: int|
            0 <= i < chosen.len() ==> (#[trigger] runs_for_packages(
                pkgs,
                chosen,
                arches,
                command,
                with_target,
                rest,
                soname,
            )[i]).first_of_package,
    decreases chosen.len(),
{
    if chosen.len() > 0 {
        lemma_single_arch_runs(pkgs, chosen.drop_last(), arches, command, with_target, rest, soname);
        let before = runs_for_packages(pkgs, chosen.drop_last(), arches, command, with_target, rest, soname);
        let all = runs_for_packages(pkgs, chosen, arches, command, with_target, rest, soname);
        assert forall|i: int| 0 <= i < chosen.len() implies (#[trigger] all[i]).first_of_package by {
            if i < before.len() {
                assert(all[i] == before[i]);
            }
        }
    }
}

/// With `--disable-target` cargo runs once for each package: outside a
/// workspace there is a single invocation, and in one every invocation is
/// the first and only one for its package.
pub proof fn lemma_disabled_target_runs_once(
    arch: Option<Seq<Arch>>,
    args: Seq<Seq<char>>,
    package: Option<Seq<char>>,
    soname: Option<Seq<char>>,
    ndk_set: bool,
    pkgs: Seq<PackageInfo>,
    sel: Seq<int>,
)
    ensures
        cargo_plan(arch, true, args, package, soname, ndk_set, pkgs, sel) matches Ok(runs) ==> (forall|i: int|
            0 <= i < runs.len() ==> (#[trigger] runs[i]).first_of_package) && (sel.len() <= 1 ==> runs.len()
            == 1),
{
    if ndk_set && args.len() > 0 {
        let command = args[0];
        let rest = args.drop_first();
        if let Ok(arches) = cargo_arches(arch, true, rest) {
            assert(arches.len() == 1);
            let filter = match package {
                Some(p) => Some(p),
                None => package_flag_value(rest),
            };
            let chosen = if sel.len() > 1 {
                match filter {
                    Some(f) => named(pkgs, sel, f),
                    None => sel,
                }
            } else {
                Seq::<int>::empty()
            };
            let so = match soname {
                Some(s) => Some(crate::soname::normalized_soname(s)),
                None => None,
            };
            lemma_single_arch_runs(pkgs, chosen, arches, command, false, rest, so);
        }
    }
}

proof fn lemma_rust_targets_differ()
    ensures
        crate::arch::rust_target_of(Arch::ARM32) != crate::arch::rust_target_of(Arch::ARM64),
        crate::arch::rust_target_of(Arch::ARM32) != crate::arch::rust_target_of(Arch::X86_64),
        crate::arch::rust_target_of(Arch::ARM64) != crate::arch::rust_target_of(Arch::X86_64),
{
    reveal_strlit("aarch64-unknown-linux-ohos");
    reveal_strlit("armv7-unknown-linux-ohos");
    reveal_strlit("x86_64-unknown-linux-ohos");
    assert(crate::arch::rust_target_of(Arch::ARM64).len() == 26);
    assert(crate::arch::rust_target_of(Arch::ARM32).len() == 24);
    assert(crate::arch::rust_target_of(Arch::X86_64).len() == 25);
}

/// With `--disable-target`, the target given with `--target` picks the
/// architecture: the Rust target of arm, arm64 or x86_64 runs for that
/// architecture alone, whatever `--arch` says; any other target, or none,
/// is refused.
pub proof fn lemma_disabled_target_picks_its_arch(arch: Option<Seq<Arch>>, rest: Seq<Seq<char>>, a: Arch)
    ensures
        (a == Arch::ARM32 || a == Arch::ARM64 || a == Arch::X86_64) && target_flag_value(rest) == Some(
            crate::arch::rust_target_of(a),
        ) ==> cargo_arches(arch, true, rest) == Ok::<Seq<Arch>, Seq<char>>(seq![a]),
        cargo_arches(arch, true, rest) is Ok ==> exists|b: Arch|
            (b == Arch::ARM32 || b == Arch::ARM64 || b == Arch::X86_64) && target_flag_value(rest) == Some(
                #[trigger] crate::arch::rust_target_of(b),
            ),
{
    lemma_rust_targets_differ();
    if cargo_arches(arch, true, rest) is Ok {
        let t = target_flag_value(rest)->0;
        if t == crate::arch::rust_target_of(Arch::ARM32) {
            assert(crate::arch::rust_target_of(Arch::ARM32) == t);
        } else if t == crate::arch::rust_target_of(Arch::ARM64) {
            assert(crate::arch::rust_target_of(Arch::ARM64) == t);
        } else {
            assert(crate::arch::rust_target_of(Arch::X86_64) == t);
        }
    }
}

/// `--target t` among the arguments gives `t` as the target.
pub proof fn lemma_target_flag_is_read(t: Seq<char>)
    ensures
        target_flag_value(seq!["--target"@, t]) == Some(t),
{
}

} // verus!

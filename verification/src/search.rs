//! The directories searched for native libraries: the candidates built
//! from the NDK layout, the kinds that cargo puts before a link-search
//! path, and the selection of usable directories from what the file system
//! reported about each candidate.

use vstd::prelude::*;
use crate::arch::Arch;
use crate::paths::{join_path, path_is_under};
use crate::text::{chars_of, string_of};

verus! {

broadcast use vstd::string::group_string_axioms;

/// The distinct elements of `s`, each where it first occurs.
pub open spec fn dedup_first(s: Seq<Seq<char>>) -> Seq<Seq<char>>
    decreases s.len(),
{
    if s.len() == 0 {
        Seq::<Seq<char>>::empty()
    } else {
        let rest = dedup_first(s.drop_last());
        if rest.contains(s.last()) {
            rest
        } else {
            rest.push(s.last())
        }
    }
}

/// Dropping repeats keeps exactly the elements of `s` and holds none twice.
pub proof fn lemma_dedup_first(s: Seq<Seq<char>>)
    ensures
        dedup_first(s).no_duplicates(),
        forall|x: Seq<char>| dedup_first(s).contains(x) <==> s.contains(x),
    decreases s.len(),
{
    if s.len() > 0 {
        let rest = dedup_first(s.drop_last());
        lemma_dedup_first(s.drop_last());
        assert forall|x: Seq<char>| dedup_first(s).contains(x) <==> s.contains(x) by {
            if s.contains(x) && !s.drop_last().contains(x) {
                let k = choose|k: int| 0 <= k < s.len() && s[k] == x;
                if k < s.len() - 1 {
                    assert(s.drop_last()[k] == x);
                }
                assert(x == s.last());
            }
            if s.drop_last().contains(x) {
                let k = choose|k: int| 0 <= k < s.drop_last().len() && s.drop_last()[k] == x;
                assert(s[k] == x);
            }
            if !rest.contains(s.last()) {
                if rest.push(s.last()).contains(x) {
                    let k = choose|k: int| 0 <= k < rest.push(s.last()).len() && rest.push(s.last())[k] == x;
                    if k < rest.len() {
                        assert(rest[k] == x);
                    }
                }
                if rest.contains(x) {
                    let k = choose|k: int| 0 <= k < rest.len() && rest[k] == x;
                    assert(rest.push(s.last())[k] == x);
                }
                assert(rest.push(s.last())[rest.len() as int] == s.last());
            }
        }
    }
}

/// The views of a sequence of optional strings.
pub open spec fn option_views(v: Seq<Option<String>>) -> Seq<Option<Seq<char>>> {
    v.map_values(|o: Option<String>| match o {
        Some(s) => Some(s@),
        None => None,
    })
}

/// The reported directories, in order, leaving out the candidates that
/// were not directories.
pub open spec fn present_dirs(probes: Seq<Option<Seq<char>>>) -> Seq<Seq<char>>
    decreases probes.len(),
{
    if probes.len() == 0 {
        Seq::<Seq<char>>::empty()
    } else {
        match probes.last() {
            Some(d) => present_dirs(probes.drop_last()).push(d),
            None => present_dirs(probes.drop_last()),
        }
    }
}

/// Whether `dir` lies under one of `roots`.
pub open spec fn under_any(dir: Seq<char>, roots: Seq<Seq<char>>) -> bool {
    exists|i: int| 0 <= i < roots.len() && crate::paths::path_starts_with(dir, #[trigger] roots[i])
}

/// The reported directories, in order, leaving out the candidates that
/// were not directories and those that lie under one of `excluded`.
pub open spec fn admissible_dirs(probes: Seq<Option<Seq<char>>>, excluded: Seq<Seq<char>>) -> Seq<
    Seq<char>,
>
    decreases probes.len(),
{
    if probes.len() == 0 {
        Seq::<Seq<char>>::empty()
    } else {
        let rest = admissible_dirs(probes.drop_last(), excluded);
        match probes.last() {
            Some(d) => if under_any(d, excluded) {
                rest
            } else {
                rest.push(d)
            },
            None => rest,
        }
    }
}

proof fn lemma_admissible_dirs(probes: Seq<Option<Seq<char>>>, excluded: Seq<Seq<char>>)
    ensures
        forall|d: Seq<char>| #[trigger] admissible_dirs(probes, excluded).contains(d) ==> !under_any(d, excluded)
            && probes.contains(Some(d)),
    decreases probes.len(),
{
    if probes.len() > 0 {
        let p = probes.drop_last();
        lemma_admissible_dirs(p, excluded);
        let rest = admissible_dirs(p, excluded);
        assert forall|d: Seq<char>| #[trigger] admissible_dirs(probes, excluded).contains(d) implies !under_any(
            d,
            excluded,
        ) && probes.contains(Some(d)) by {
            let r = admissible_dirs(probes, excluded);
            let k = choose|k: int| 0 <= k < r.len() && r[k] == d;
            if k < rest.len() && r[k] == rest[k] {
                assert(rest.contains(d));
                let j = choose|j: int| 0 <= j < p.len() && p[j] == Some(d);
                assert(probes[j] == Some(d));
            } else {
                assert(probes.last() == Some(d));
                assert(probes[probes.len() - 1] == Some(d));
            }
        }
    }
}

/// The link-search directories kept hold no directory twice, and each is
/// one the file system reported that lies under none of the excluded
/// roots: missing and excluded directories are ignored.
pub proof fn lemma_link_search_paths_admissible(probes: Seq<Option<Seq<char>>>, excluded: Seq<Seq<char>>)
    ensures
        dedup_first(admissible_dirs(probes, excluded)).no_duplicates(),
        forall|d: Seq<char>| #[trigger] dedup_first(admissible_dirs(probes, excluded)).contains(d) ==> !under_any(
            d,
            excluded,
        ) && probes.contains(Some(d)),
{
    lemma_dedup_first(admissible_dirs(probes, excluded));
    lemma_admissible_dirs(probes, excluded);
    assert forall|d: Seq<char>| #[trigger] dedup_first(admissible_dirs(probes, excluded)).contains(d) implies !under_any(
        d,
        excluded,
    ) && probes.contains(Some(d)) by {
        assert(admissible_dirs(probes, excluded).contains(d));
    }
}

proof fn lemma_admissible_concat(a: Seq<Option<Seq<char>>>, b: Seq<Option<Seq<char>>>, excluded: Seq<Seq<char>>)
    ensures
        admissible_dirs(a + b, excluded) == admissible_dirs(a, excluded) + admissible_dirs(b, excluded),
    decreases b.len(),
{
    if b.len() == 0 {
        assert(a + b =~= a);
        assert(admissible_dirs(a, excluded) + admissible_dirs(b, excluded) =~= admissible_dirs(a, excluded));
    } else {
        lemma_admissible_concat(a, b.drop_last(), excluded);
        assert((a + b).drop_last() =~= a + b.drop_last());
        assert((a + b).last() == b.last());
        let x = admissible_dirs(a, excluded);
        let y = admissible_dirs(b.drop_last(), excluded);
        match b.last() {
            Some(d) => {
                if !under_any(d, excluded) {
                    assert((x + y).push(d) =~= x + y.push(d));
                }
            },
            None => {},
        }
    }
}

/// A directory advertised for linking that does not exist is skipped: a
/// missing entry anywhere among the probes changes nothing that is kept.
pub proof fn lemma_missing_directory_is_skipped(
    before: Seq<Option<Seq<char>>>,
    after: Seq<Option<Seq<char>>>,
    excluded: Seq<Seq<char>>,
)
    ensures
        dedup_first(admissible_dirs(before + seq![None::<Seq<char>>] + after, excluded)) == dedup_first(
            admissible_dirs(before + after, excluded),
        ),
{
    let missing = seq![None::<Seq<char>>];
    lemma_admissible_concat(before + missing, after, excluded);
    lemma_admissible_concat(before, missing, excluded);
    lemma_admissible_concat(before, after, excluded);
    assert(missing.drop_last() =~= Seq::<Option<Seq<char>>>::empty());
    assert(admissible_dirs(missing.drop_last(), excluded) =~= Seq::<Seq<char>>::empty());
    assert(missing.last() == None::<Seq<char>>);
    assert(admissible_dirs(missing, excluded) =~= Seq::<Seq<char>>::empty());
    assert(admissible_dirs(before, excluded) + admissible_dirs(missing, excluded) =~= admissible_dirs(
        before,
        excluded,
    ));
}

proof fn lemma_present_concat(a: Seq<Option<Seq<char>>>, b: Seq<Option<Seq<char>>>)
    ensures
        present_dirs(a + b) == present_dirs(a) + present_dirs(b),
    decreases b.len(),
{
    if b.len() == 0 {
        assert(a + b =~= a);
        assert(present_dirs(a) + present_dirs(b) =~= present_dirs(a));
    } else {
        lemma_present_concat(a, b.drop_last());
        assert((a + b).drop_last() =~= a + b.drop_last());
        assert((a + b).last() == b.last());
        match b.last() {
            Some(d) => {
                assert((present_dirs(a) + present_dirs(b.drop_last())).push(d) =~= present_dirs(a)
                    + present_dirs(b.drop_last()).push(d));
            },
            None => {},
        }
    }
}

proof fn lemma_dedup_absorbs(a: Seq<Seq<char>>, b: Seq<Seq<char>>)
    requires
        forall|x: Seq<char>| #[trigger] b.contains(x) ==> a.contains(x),
    ensures
        dedup_first(a + b) == dedup_first(a),
    decreases b.len(),
{
    if b.len() == 0 {
        assert(a + b =~= a);
    } else {
        assert forall|x: Seq<char>| #[trigger] b.drop_last().contains(x) implies a.contains(x) by {
            let k = choose|k: int| 0 <= k < b.drop_last().len() && b.drop_last()[k] == x;
            assert(b[k] == x);
            assert(b.contains(x));
        }
        lemma_dedup_absorbs(a, b.drop_last());
        assert((a + b).drop_last() =~= a + b.drop_last());
        assert((a + b).last() == b.last());
        assert(b[b.len() - 1] == b.last());
        assert(b.contains(b.last()));
        lemma_dedup_first(a);
    }
}

/// Probing the same places twice adds nothing: the directories kept from
/// the probes given twice over are those kept from them given once.
pub proof fn lemma_repeated_probes_add_nothing(probes: Seq<Option<Seq<char>>>)
    ensures
        dedup_first(present_dirs(probes + probes)) == dedup_first(present_dirs(probes)),
{
    lemma_present_concat(probes, probes);
    let d = present_dirs(probes);
    lemma_dedup_absorbs(d, d);
}

/// Naming the OpenHarmony NDK again as the HarmonyOS NDK adds no system
/// directory: whatever the file system reports for each candidate
/// (`probe`, the same for the same path), the directories kept are those
/// kept without a HarmonyOS NDK.
pub proof fn lemma_same_ndk_adds_no_system_dir(
    ndk: Seq<char>,
    arch: Arch,
    probe: spec_fn(Seq<char>) -> Option<Seq<char>>,
)
    ensures
        dedup_first(present_dirs(system_library_candidates(ndk, Some(ndk), arch).map_values(probe)))
            == dedup_first(present_dirs(system_library_candidates(ndk, None, arch).map_values(probe))),
{
    let c = system_library_candidates(ndk, None, arch);
    assert(system_library_candidates(ndk, Some(ndk), arch) =~= c + c);
    assert((c + c).map_values(probe) =~= c.map_values(probe) + c.map_values(probe));
    lemma_repeated_probes_add_nothing(c.map_values(probe));
}

pub(crate) fn contains_string(v: &Vec<String>, x: &String) -> (r: bool)
    ensures
        r == crate::text::string_views(v@).contains(x@),
{
    let mut i: usize = 0;
    while i < v.len()
        invariant
            i <= v@.len(),
            forall|k: int| 0 <= k < i ==> v@[k]@ != x@,
        decreases v@.len() - i,
    {
        if v[i] == *x {
            assert(crate::text::string_views(v@)[i as int] == x@);
            return true;
        }
        i = i + 1;
    }
    proof {
        if crate::text::string_views(v@).contains(x@) {
            let k = choose|k: int|
                0 <= k < crate::text::string_views(v@).len() && crate::text::string_views(v@)[k]
                    == x@;
            assert(v@[k]@ == x@);
        }
    }
    false
}

fn under_any_root(dir: &String, roots: &[String]) -> (r: bool)
    ensures
        r == under_any(dir@, crate::text::string_views(roots@)),
{
    let mut i: usize = 0;
    while i < roots.len()
        invariant
            i <= roots@.len(),
            forall|k: int|
                0 <= k < i ==> !crate::paths::path_starts_with(dir@, #[trigger] roots@[k]@),
        decreases roots@.len() - i,
    {
        if path_is_under(dir.as_str(), roots[i].as_str()) {
            assert(crate::text::string_views(roots@)[i as int] == roots@[i as int]@);
            return true;
        }
        i = i + 1;
    }
    proof {
        let rv = crate::text::string_views(roots@);
        if under_any(dir@, rv) {
            let k = choose|k: int| 0 <= k < rv.len() && crate::paths::path_starts_with(dir@, #[trigger] rv[k]);
            assert(rv[k] == roots@[k]@);
        }
    }
    false
}

/// Chooses the usable link-search directories.  `probes[i]` is what the
/// file system reported for the `i`-th directory that cargo advertised
/// (after `strip_link_search_kind`): its canonical form when it is a
/// directory, `None` when it is not.  `excluded_roots` are canonical too.
/// The result keeps, in order and once each, the reported directories that
/// lie under none of the excluded roots.
pub fn resolve_link_search_path_values(probes: &[Option<String>], excluded_roots: &[String]) -> (r:
    Vec<String>)
    ensures
        crate::text::string_views(r@) == dedup_first(
            admissible_dirs(option_views(probes@), crate::text::string_views(excluded_roots@)),
        ),
{
    let ghost ex = crate::text::string_views(excluded_roots@);
    let mut out: Vec<String> = Vec::new();
    let mut i: usize = 0;
    while i < probes.len()
        invariant
            i <= probes@.len(),
            ex == crate::text::string_views(excluded_roots@),
            crate::text::string_views(out@) == dedup_first(
                admissible_dirs(option_views(probes@).subrange(0, i as int), ex),
            ),
        decreases probes@.len() - i,
    {
        let ghost pv = option_views(probes@);
        proof {
            assert(pv.subrange(0, i + 1).drop_last() =~= pv.subrange(0, i as int));
            assert(pv.subrange(0, i + 1).last() == pv[i as int]);
        }
        let ghost s_i = admissible_dirs(pv.subrange(0, i as int), ex);
        match &probes[i] {
            Some(dir) => {
                assert(pv[i as int] == Some(dir@));
                assert(s_i.push(dir@).drop_last() =~= s_i);
                if !under_any_root(dir, excluded_roots) {
                    if !contains_string(&out, dir) {
                        let ghost before = crate::text::string_views(out@);
                        out.push(dir.clone());
                        assert(crate::text::string_views(out@) =~= before.push(dir@));
                    }
                }
            },
            None => {
                assert(pv[i as int] == None::<Seq<char>>);
            },
        }
        i = i + 1;
    }
    assert(option_views(probes@).subrange(0, probes@.len() as int) =~= option_views(probes@));
    out
}

/// Keeps, in order and once each, the candidates that the file system
/// reported as directories; `probes[i]` is the canonical form of the
/// `i`-th candidate when it is a directory, `None` otherwise.
pub fn deduplicate_paths(probes: &[Option<String>]) -> (r: Vec<String>)
    ensures
        crate::text::string_views(r@) == dedup_first(present_dirs(option_views(probes@))),
{
    let mut out: Vec<String> = Vec::new();
    let mut i: usize = 0;
    while i < probes.len()
        invariant
            i <= probes@.len(),
            crate::text::string_views(out@) == dedup_first(
                present_dirs(option_views(probes@).subrange(0, i as int)),
            ),
        decreases probes@.len() - i,
    {
        let ghost pv = option_views(probes@);
        proof {
            assert(pv.subrange(0, i + 1).drop_last() =~= pv.subrange(0, i as int));
            assert(pv.subrange(0, i + 1).last() == pv[i as int]);
        }
        let ghost s_i = present_dirs(pv.subrange(0, i as int));
        match &probes[i] {
            Some(dir) => {
                assert(pv[i as int] == Some(dir@));
                assert(s_i.push(dir@).drop_last() =~= s_i);
                if !contains_string(&out, dir) {
                    let ghost before = crate::text::string_views(out@);
                    out.push(dir.clone());
                    assert(crate::text::string_views(out@) =~= before.push(dir@));
                }
            },
            None => {
                assert(pv[i as int] == None::<Seq<char>>);
            },
        }
        i = i + 1;
    }
    assert(option_views(probes@).subrange(0, probes@.len() as int) =~= option_views(probes@));
    out
}

} // verus!

verus! {

/// The position of the first `c` in `s`, or `-1` when `s` holds none.
pub open spec fn first_index_of(s: Seq<char>, c: char) -> int
    decreases s.len(),
{
    if s.len() == 0 {
        -1
    } else if s[0] == c {
        0
    } else {
        let r = first_index_of(s.drop_first(), c);
        if r < 0 {
            -1
        } else {
            r + 1
        }
    }
}

proof fn lemma_first_index_of(s: Seq<char>, c: char, i: int)
    requires
        0 <= i <= s.len(),
        forall|k: int| 0 <= k < i ==> s[k] != c,
        i == s.len() || s[i] == c,
    ensures
        first_index_of(s, c) == (if i == s.len() {
            -1
        } else {
            i
        }),
    decreases i,
{
    if i > 0 {
        assert forall|k: int| 0 <= k < i - 1 implies s.drop_first()[k] != c by {
            assert(s.drop_first()[k] == s[k + 1]);
        }
        if i < s.len() {
            assert(s.drop_first()[i - 1] == s[i]);
        }
        lemma_first_index_of(s.drop_first(), c, i - 1);
    }
}

/// Whether `kind` is one of the kinds that cargo may put before a
/// link-search path: `native`, `dependency`, `crate`, `framework`, `all`.
pub open spec fn is_link_search_kind(kind: Seq<char>) -> bool {
    kind == "native"@ || kind == "dependency"@ || kind == "crate"@ || kind == "framework"@ || kind
        == "all"@
}

/// A cargo link-search value without its `KIND=` prefix: when the part
/// before the first `=` is a known kind, what follows that `=`; otherwise
/// the value itself.
pub open spec fn link_search_path_of(value: Seq<char>) -> Seq<char> {
    let i = first_index_of(value, '=');
    if i >= 0 && is_link_search_kind(value.subrange(0, i)) {
        value.subrange(i + 1, value.len() as int)
    } else {
        value
    }
}

fn subrange_chars(v: &Vec<char>, from: usize, to: usize) -> (r: Vec<char>)
    requires
        from <= to <= v@.len(),
    ensures
        r@ == v@.subrange(from as int, to as int),
{
    let mut r: Vec<char> = Vec::new();
    let mut k: usize = from;
    while k < to
        invariant
            from <= k <= to <= v@.len(),
            r@ == v@.subrange(from as int, k as int),
        decreases to - k,
    {
        r.push(v[k]);
        k = k + 1;
        assert(r@ =~= v@.subrange(from as int, k as int));
    }
    r
}

/// Removes the `KIND=` prefix (`native=`, `dependency=`, `crate=`,
/// `framework=`, `all=`) from a cargo link-search value.
pub fn strip_link_search_kind(value: &str) -> (r: String)
    ensures
        r@ == link_search_path_of(value@),
{
    let v = chars_of(value);
    let mut i: usize = 0;
    while i < v.len() && v[i] != '='
        invariant
            i <= v@.len(),
            v@ == value@,
            forall|k: int| 0 <= k < i ==> v@[k] != '=',
        decreases v@.len() - i,
    {
        i = i + 1;
    }
    proof {
        lemma_first_index_of(v@, '=', i as int);
    }
    if i == v.len() {
        return value.to_owned();
    }
    let kind = subrange_chars(&v, 0, i);
    let is_kind = crate::text::chars_eq(kind.as_slice(), chars_of("native").as_slice())
        || crate::text::chars_eq(kind.as_slice(), chars_of("dependency").as_slice())
        || crate::text::chars_eq(kind.as_slice(), chars_of("crate").as_slice())
        || crate::text::chars_eq(kind.as_slice(), chars_of("framework").as_slice())
        || crate::text::chars_eq(kind.as_slice(), chars_of("all").as_slice());
    if is_kind {
        let rest = subrange_chars(&v, i + 1, v.len());
        string_of(rest.as_slice())
    } else {
        value.to_owned()
    }
}

/// `<ndk>/native/sysroot/usr/lib`.
pub open spec fn sysroot_lib_dir(ndk: Seq<char>) -> Seq<char> {
    crate::paths::path_join(
        crate::paths::path_join(
            crate::paths::path_join(crate::paths::path_join(ndk, "native"@), "sysroot"@),
            "usr"@,
        ),
        "lib"@,
    )
}

/// The directories where the system libraries of the NDKs may live, in the
/// order they are searched: the architecture's directory of the OpenHarmony
/// sysroot, the sysroot's library directory, then the same two of the
/// HarmonyOS NDK when there is one.
pub open spec fn system_library_candidates(ndk: Seq<char>, hos_ndk: Option<Seq<char>>, arch: Arch) -> Seq<
    Seq<char>,
> {
    let base = seq![
        crate::paths::path_join(sysroot_lib_dir(ndk), crate::arch::c_target_of(arch)),
        sysroot_lib_dir(ndk),
    ];
    match hos_ndk {
        Some(h) => base + seq![
            crate::paths::path_join(sysroot_lib_dir(h), crate::arch::c_target_of(arch)),
            sysroot_lib_dir(h),
        ],
        None => base,
    }
}

fn sysroot_lib(ndk: &str) -> (r: String)
    ensures
        r@ == sysroot_lib_dir(ndk@),
{
    let a = join_path(ndk, "native");
    let b = join_path(a.as_str(), "sysroot");
    let c = join_path(b.as_str(), "usr");
    join_path(c.as_str(), "lib")
}

/// The directories where the system libraries of the NDKs may live, in the
/// order they are searched (see `system_library_candidates`).  The caller
/// keeps those that exist with `deduplicate_paths`.
pub fn ohos_system_library_paths(ndk: &str, hos_ndk: Option<&str>, arch: Arch) -> (r: Vec<String>)
    ensures
        crate::text::string_views(r@) == system_library_candidates(
            ndk@,
            match hos_ndk {
                Some(h) => Some(h@),
                None => None,
            },
            arch,
        ),
{
    let lib = sysroot_lib(ndk);
    let first = join_path(lib.as_str(), arch.c_target());
    let mut paths: Vec<String> = Vec::new();
    paths.push(first);
    paths.push(lib);
    match hos_ndk {
        Some(h) => {
            let hlib = sysroot_lib(h);
            let hfirst = join_path(hlib.as_str(), arch.c_target());
            paths.push(hfirst);
            paths.push(hlib);
        },
        None => {},
    }
    assert(crate::text::string_views(paths@) =~= system_library_candidates(
        ndk@,
        match hos_ndk {
            Some(h) => Some(h@),
            None => None,
        },
        arch,
    ));
    paths
}

/// `<ndk>/native/llvm/lib/<c target>`, where the C++ runtime lives.
pub open spec fn llvm_runtime_dir(ndk: Seq<char>, arch: Arch) -> Seq<char> {
    crate::paths::path_join(
        crate::paths::path_join(
            crate::paths::path_join(crate::paths::path_join(ndk, "native"@), "llvm"@),
            "lib"@,
        ),
        crate::arch::c_target_of(arch),
    )
}

/// The directories where the NDK's runtime libraries (such as
/// `libc++_shared.so`) may live: the LLVM library directory of the
/// architecture and its `c++` subdirectory.  The caller keeps those that
/// exist with `deduplicate_paths`.
pub fn ohos_runtime_library_paths(ndk: &str, arch: Arch) -> (r: Vec<String>)
    ensures
        crate::text::string_views(r@) == seq![
            llvm_runtime_dir(ndk@, arch),
            crate::paths::path_join(llvm_runtime_dir(ndk@, arch), "c++"@),
        ],
{
    let a = join_path(ndk, "native");
    let b = join_path(a.as_str(), "llvm");
    let c = join_path(b.as_str(), "lib");
    let target_dir = join_path(c.as_str(), arch.c_target());
    let cpp = join_path(target_dir.as_str(), "c++");
    let mut paths: Vec<String> = Vec::new();
    paths.push(target_dir);
    paths.push(cpp);
    assert(crate::text::string_views(paths@) =~= seq![
        llvm_runtime_dir(ndk@, arch),
        crate::paths::path_join(llvm_runtime_dir(ndk@, arch), "c++"@),
    ]);
    paths
}

} // verus!

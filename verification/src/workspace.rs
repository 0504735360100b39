//! The packages of a cargo workspace that a command works on: the members
//! that cargo reported, narrowed to the one whose directory holds the
//! working directory when there is one.

use vstd::prelude::*;

verus! {

broadcast use vstd::string::group_string_axioms;

/// What the commands read of a package that cargo reported.
pub struct PackageInfo {
    /// The package id.
    pub id: String,
    pub name: String,
    pub version: String,
    /// The path of its `Cargo.toml`.
    pub manifest_path: String,
    /// The directory of its `Cargo.toml`, when that path has one.
    pub manifest_dir: Option<String>,
    /// The canonical form of that directory, when it could be had.
    pub manifest_dir_canonical: Option<String>,
    /// Whether it depends on `napi-derive-ohos`.
    pub uses_napi_derive: bool,
}

/// The first package with id `id`.
pub open spec fn first_with_id(pkgs: Seq<PackageInfo>, id: Seq<char>) -> Option<int>
    decreases pkgs.len(),
{
    if pkgs.len() == 0 {
        None
    } else {
        match first_with_id(pkgs.drop_last(), id) {
            Some(k) => Some(k),
            None => if pkgs.last().id@ == id {
                Some(pkgs.len() - 1)
            } else {
                None
            },
        }
    }
}

/// The workspace members, in the order of `ids`, each as the index of the
/// first package with its id; an id that no package has is passed over.
pub open spec fn member_indices(pkgs: Seq<PackageInfo>, ids: Seq<Seq<char>>) -> Seq<int>
    decreases ids.len(),
{
    if ids.len() == 0 {
        Seq::<int>::empty()
    } else {
        let rest = member_indices(pkgs, ids.drop_last());
        match first_with_id(pkgs, ids.last()) {
            Some(k) => rest.push(k),
            None => rest,
        }
    }
}

/// The indices of `idx` whose package depends on `napi-derive-ohos`.
pub open spec fn napi_indices(pkgs: Seq<PackageInfo>, idx: Seq<int>) -> Seq<int>
    decreases idx.len(),
{
    if idx.len() == 0 {
        Seq::<int>::empty()
    } else {
        let rest = napi_indices(pkgs, idx.drop_last());
        if 0 <= idx.last() < pkgs.len() && pkgs[idx.last()].uses_napi_derive {
            rest.push(idx.last())
        } else {
            rest
        }
    }
}

/// Whether `s` begins with `p`.
pub open spec fn is_prefix(p: Seq<char>, s: Seq<char>) -> bool {
    p.len() <= s.len() && s.subrange(0, p.len() as int) == p
}

/// Whether the working directory lies in the package's directory: by
/// components when both canonical forms could be had, else by the text of
/// the paths.
pub open spec fn holds_working_dir(p: PackageInfo, pwd: Seq<char>, pwd_canonical: Option<Seq<char>>) -> bool {
    match p.manifest_dir {
        None => false,
        Some(md) => match (pwd_canonical, p.manifest_dir_canonical) {
            (Some(a), Some(b)) => crate::paths::path_starts_with(a, b@) || crate::paths::path_components(a)
                == crate::paths::path_components(b@),
            _ => is_prefix(md@, pwd) || pwd == md@,
        },
    }
}

/// The first of `idx` whose package holds the working directory.
pub open spec fn first_holding(
    pkgs: Seq<PackageInfo>,
    idx: Seq<int>,
    pwd: Seq<char>,
    pwd_canonical: Option<Seq<char>>,
) -> Option<int>
    decreases idx.len(),
{
    if idx.len() == 0 {
        None
    } else {
        match first_holding(pkgs, idx.drop_last(), pwd, pwd_canonical) {
            Some(k) => Some(k),
            None => if 0 <= idx.last() < pkgs.len() && holds_working_dir(
                pkgs[idx.last()],
                pwd,
                pwd_canonical,
            ) {
                Some(idx.last())
            } else {
                None
            },
        }
    }
}

/// The package holding the working directory alone, when there is one;
/// else all of `idx`.
pub open spec fn current_or_all(
    pkgs: Seq<PackageInfo>,
    idx: Seq<int>,
    pwd: Seq<char>,
    pwd_canonical: Option<Seq<char>>,
) -> Seq<int> {
    match first_holding(pkgs, idx, pwd, pwd_canonical) {
        Some(k) => seq![k],
        None => idx,
    }
}

/// The packages a command works on in a workspace: none when cargo
/// reported no members; else the member holding the working directory, or
/// all members.
pub open spec fn workspace_selection(
    pkgs: Seq<PackageInfo>,
    ids: Seq<Seq<char>>,
    pwd: Seq<char>,
    pwd_canonical: Option<Seq<char>>,
) -> Seq<int> {
    if ids.len() == 0 {
        Seq::<int>::empty()
    } else {
        current_or_all(pkgs, member_indices(pkgs, ids), pwd, pwd_canonical)
    }
}

/// The first package whose manifest is `manifest`, the paths compared
/// component by component.
pub open spec fn first_with_manifest(pkgs: Seq<PackageInfo>, manifest: Seq<char>) -> Option<int>
    decreases pkgs.len(),
{
    if pkgs.len() == 0 {
        None
    } else {
        match first_with_manifest(pkgs.drop_last(), manifest) {
            Some(k) => Some(k),
            None => if crate::paths::path_components(pkgs.last().manifest_path@)
                == crate::paths::path_components(manifest) {
                Some(pkgs.len() - 1)
            } else {
                None
            },
        }
    }
}

/// The packages that `ohrs artifact` packs: in a workspace, the members
/// that use `napi-derive-ohos`, narrowed to the one holding the working
/// directory when there is one; outside one, the package of `manifest`
/// when it uses `napi-derive-ohos`.
pub open spec fn napi_selection(
    pkgs: Seq<PackageInfo>,
    ids: Seq<Seq<char>>,
    manifest: Seq<char>,
    pwd: Seq<char>,
    pwd_canonical: Option<Seq<char>>,
) -> Seq<int> {
    if ids.len() > 0 {
        current_or_all(pkgs, napi_indices(pkgs, member_indices(pkgs, ids)), pwd, pwd_canonical)
    } else {
        match first_with_manifest(pkgs, manifest) {
            Some(k) => if pkgs[k].uses_napi_derive {
                seq![k]
            } else {
                Seq::<int>::empty()
            },
            None => Seq::<int>::empty(),
        }
    }
}

/// The indices of a vector of positions, as integers.
pub open spec fn index_view(v: Seq<usize>) -> Seq<int> {
    v.map_values(|i: usize| i as int)
}

proof fn lemma_first_with_id(pkgs: Seq<PackageInfo>, id: Seq<char>)
    ensures
        first_with_id(pkgs, id) matches Some(k) ==> 0 <= k < pkgs.len() && pkgs[k].id@ == id
            && forall|j: int| 0 <= j < k ==> pkgs[j].id@ != id,
        first_with_id(pkgs, id) is None ==> forall|j: int| 0 <= j < pkgs.len() ==> pkgs[j].id@ != id,
    decreases pkgs.len(),
{
    if pkgs.len() > 0 {
        lemma_first_with_id(pkgs.drop_last(), id);
        assert forall|j: int| 0 <= j < pkgs.len() - 1 implies pkgs.drop_last()[j] == pkgs[j] by {}
    }
}

fn find_id(pkgs: &Vec<PackageInfo>, id: &String) -> (r: Option<usize>)
    ensures
        match r {
            Some(k) => first_with_id(pkgs@, id@) == Some(k as int),
            None => first_with_id(pkgs@, id@) is None,
        },
{
    proof {
        lemma_first_with_id(pkgs@, id@);
    }
    let mut k: usize = 0;
    while k < pkgs.len()
        invariant
            k <= pkgs@.len(),
            forall|j: int| 0 <= j < k ==> pkgs@[j].id@ != id@,
            first_with_id(pkgs@, id@) matches Some(f) ==> k <= f,
        decreases pkgs@.len() - k,
    {
        proof {
            lemma_first_with_id(pkgs@, id@);
        }
        if pkgs[k].id == *id {
            return Some(k);
        }
        k = k + 1;
    }
    proof {
        lemma_first_with_id(pkgs@, id@);
    }
    None
}

fn members_of(pkgs: &Vec<PackageInfo>, ids: &Vec<String>) -> (r: Vec<usize>)
    ensures
        index_view(r@) == member_indices(pkgs@, crate::text::string_views(ids@)),
        forall|i: int| 0 <= i < r@.len() ==> r@[i] < pkgs@.len(),
{
    let ghost iv = crate::text::string_views(ids@);
    let mut out: Vec<usize> = Vec::new();
    let mut i: usize = 0;
    while i < ids.len()
        invariant
            i <= ids@.len(),
            iv == crate::text::string_views(ids@),
            index_view(out@) == member_indices(pkgs@, iv.subrange(0, i as int)),
            forall|t: int| 0 <= t < out@.len() ==> out@[t] < pkgs@.len(),
        decreases ids@.len() - i,
    {
        assert(iv.subrange(0, i + 1).drop_last() =~= iv.subrange(0, i as int));
        assert(iv.subrange(0, i + 1).last() == ids@[i as int]@);
        proof {
            lemma_first_with_id(pkgs@, ids@[i as int]@);
        }
        match find_id(pkgs, &ids[i]) {
            Some(k) => {
                let ghost before = index_view(out@);
                out.push(k);
                assert(index_view(out@) =~= before.push(k as int));
            },
            None => {},
        }
        i = i + 1;
    }
    assert(iv.subrange(0, ids@.len() as int) =~= iv);
    out
}

fn with_napi(pkgs: &Vec<PackageInfo>, idx: &Vec<usize>) -> (r: Vec<usize>)
    requires
        forall|i: int| 0 <= i < idx@.len() ==> idx@[i] < pkgs@.len(),
    ensures
        index_view(r@) == napi_indices(pkgs@, index_view(idx@)),
        forall|i: int| 0 <= i < r@.len() ==> r@[i] < pkgs@.len(),
{
    let ghost iv = index_view(idx@);
    let mut out: Vec<usize> = Vec::new();
    let mut i: usize = 0;
    while i < idx.len()
        invariant
            i <= idx@.len(),
            iv == index_view(idx@),
            forall|t: int| 0 <= t < idx@.len() ==> idx@[t] < pkgs@.len(),
            index_view(out@) == napi_indices(pkgs@, iv.subrange(0, i as int)),
            forall|t: int| 0 <= t < out@.len() ==> out@[t] < pkgs@.len(),
        decreases idx@.len() - i,
    {
        assert(iv.subrange(0, i + 1).drop_last() =~= iv.subrange(0, i as int));
        assert(iv.subrange(0, i + 1).last() == idx@[i as int] as int);
        let k = idx[i];
        if pkgs[k].uses_napi_derive {
            let ghost before = index_view(out@);
            out.push(k);
            assert(index_view(out@) =~= before.push(k as int));
        }
        i = i + 1;
    }
    assert(iv.subrange(0, idx@.len() as int) =~= iv);
    out
}

fn is_prefix_exec(p: &str, s: &str) -> (r: bool)
    ensures
        r == is_prefix(p@, s@),
{
    let pv = crate::text::chars_of(p);
    let sv = crate::text::chars_of(s);
    if pv.len() > sv.len() {
        return false;
    }
    let mut i: usize = 0;
    while i < pv.len()
        invariant
            pv@ == p@,
            sv@ == s@,
            pv@.len() <= sv@.len(),
            i <= pv@.len(),
            forall|t: int| 0 <= t < i ==> sv@[t] == pv@[t],
        decreases pv@.len() - i,
    {
        if pv[i] != sv[i] {
            assert(s@.subrange(0, p@.len() as int)[i as int] != p@[i as int]);
            return false;
        }
        i = i + 1;
    }
    assert(s@.subrange(0, p@.len() as int) =~= p@);
    true
}

/// Whether the package's directory holds the working directory (see
/// `holds_working_dir`).
pub fn holds_working_dir_exec(p: &PackageInfo, pwd: &str, pwd_canonical: &Option<String>) -> (r: bool)
    ensures
        r == holds_working_dir(
            *p,
            pwd@,
            match pwd_canonical {
                Some(c) => Some(c@),
                None => None,
            },
        ),
{
    match &p.manifest_dir {
        None => false,
        Some(md) => match (pwd_canonical, &p.manifest_dir_canonical) {
            (Some(a), Some(b)) => crate::paths::path_is_under(a.as_str(), b.as_str())
                || crate::paths::same_path(a.as_str(), b.as_str()),
            _ => is_prefix_exec(md.as_str(), pwd) || pwd.to_owned() == *md,
        },
    }
}

fn current_or_all_exec(pkgs: &Vec<PackageInfo>, idx: Vec<usize>, pwd: &str, pwd_canonical: &Option<String>) -> (r:
    Vec<usize>)
    requires
        forall|i: int| 0 <= i < idx@.len() ==> idx@[i] < pkgs@.len(),
    ensures
        index_view(r@) == current_or_all(
            pkgs@,
            index_view(idx@),
            pwd@,
            match pwd_canonical {
                Some(c) => Some(c@),
                None => None,
            },
        ),
        forall|i: int| 0 <= i < r@.len() ==> r@[i] < pkgs@.len(),
{
    let ghost pc = match pwd_canonical {
        Some(c) => Some(c@),
        None => None,
    };
    let ghost iv = index_view(idx@);
    let mut i: usize = 0;
    while i < idx.len()
        invariant
            i <= idx@.len(),
            iv == index_view(idx@),
            pc == match pwd_canonical {
                Some(c) => Some(c@),
                None => None,
            },
            forall|t: int| 0 <= t < idx@.len() ==> idx@[t] < pkgs@.len(),
            first_holding(pkgs@, iv.subrange(0, i as int), pwd@, pc) is None,
        decreases idx@.len() - i,
    {
        assert(iv.subrange(0, i + 1).drop_last() =~= iv.subrange(0, i as int));
        assert(iv.subrange(0, i + 1).last() == idx@[i as int] as int);
        let k = idx[i];
        if holds_working_dir_exec(&pkgs[k], pwd, pwd_canonical) {
            assert(holds_working_dir(pkgs@[k as int], pwd@, pc));
            assert(first_holding(pkgs@, iv.subrange(0, i + 1), pwd@, pc) == Some(k as int));
            proof {
                lemma_first_holding_prefix(pkgs@, iv, pwd@, pc, i + 1);
            }
            let mut one: Vec<usize> = Vec::new();
            one.push(k);
            assert(index_view(one@) =~= seq![k as int]);
            return one;
        }
        i = i + 1;
    }
    assert(iv.subrange(0, idx@.len() as int) =~= iv);
    idx
}

proof fn lemma_first_holding_prefix(
    pkgs: Seq<PackageInfo>,
    idx: Seq<int>,
    pwd: Seq<char>,
    pc: Option<Seq<char>>,
    n: int,
)
    requires
        0 < n <= idx.len(),
        first_holding(pkgs, idx.subrange(0, n), pwd, pc) is Some,
    ensures
        first_holding(pkgs, idx, pwd, pc) == first_holding(pkgs, idx.subrange(0, n), pwd, pc),
    decreases idx.len() - n,
{
    if n < idx.len() {
        assert(idx.subrange(0, n + 1).drop_last() =~= idx.subrange(0, n));
        lemma_first_holding_prefix(pkgs, idx, pwd, pc, n + 1);
    } else {
        assert(idx.subrange(0, n) =~= idx);
    }
}

/// The packages a command works on, as indices into `pkgs` (see
/// `workspace_selection`): `member_ids` are the members cargo reported,
/// `pwd` the working directory and `pwd_canonical` its canonical form when
/// it could be had.
pub fn select_workspace_packages(
    pkgs: &Vec<PackageInfo>,
    member_ids: &Vec<String>,
    pwd: &str,
    pwd_canonical: &Option<String>,
) -> (r: Vec<usize>)
    ensures
        index_view(r@) == workspace_selection(
            pkgs@,
            crate::text::string_views(member_ids@),
            pwd@,
            match pwd_canonical {
                Some(c) => Some(c@),
                None => None,
            },
        ),
        forall|i: int| 0 <= i < r@.len() ==> r@[i] < pkgs@.len(),
{
    if member_ids.len() == 0 {
        let v: Vec<usize> = Vec::new();
        assert(index_view(v@) =~= Seq::<int>::empty());
        return v;
    }
    let members = members_of(pkgs, member_ids);
    current_or_all_exec(pkgs, members, pwd, pwd_canonical)
}

/// The packages `ohrs artifact` packs, as indices into `pkgs` (see
/// `napi_selection`); `manifest` is the path of the working directory's
/// `Cargo.toml`.
pub fn select_napi_packages(
    pkgs: &Vec<PackageInfo>,
    member_ids: &Vec<String>,
    manifest: &str,
    pwd: &str,
    pwd_canonical: &Option<String>,
) -> (r: Vec<usize>)
    ensures
        index_view(r@) == napi_selection(
            pkgs@,
            crate::text::string_views(member_ids@),
            manifest@,
            pwd@,
            match pwd_canonical {
                Some(c) => Some(c@),
                None => None,
            },
        ),
        forall|i: int| 0 <= i < r@.len() ==> r@[i] < pkgs@.len(),
{
    if member_ids.len() > 0 {
        let members = members_of(pkgs, member_ids);
        let napi = with_napi(pkgs, &members);
        let r = current_or_all_exec(pkgs, napi, pwd, pwd_canonical);
        assert(crate::text::string_views(member_ids@).len() > 0);
        return r;
    }
    assert(crate::text::string_views(member_ids@).len() == 0);
    let mut k: usize = 0;
    while k < pkgs.len()
        invariant
            k <= pkgs@.len(),
            member_ids@.len() == 0,
            first_with_manifest(pkgs@.subrange(0, k as int), manifest@) is None,
        decreases pkgs@.len() - k,
    {
        assert(pkgs@.subrange(0, k + 1).drop_last() =~= pkgs@.subrange(0, k as int));
        if crate::paths::same_path(pkgs[k].manifest_path.as_str(), manifest) {
            assert(first_with_manifest(pkgs@.subrange(0, k + 1), manifest@) == Some(k as int));
            proof {
                lemma_first_with_manifest_prefix(pkgs@, manifest@, k + 1);
            }
            let mut out: Vec<usize> = Vec::new();
            if pkgs[k].uses_napi_derive {
                out.push(k);
                assert(index_view(out@) =~= seq![k as int]);
            } else {
                assert(index_view(out@) =~= Seq::<int>::empty());
            }
            return out;
        }
        k = k + 1;
    }
    assert(pkgs@.subrange(0, pkgs@.len() as int) =~= pkgs@);
    let v: Vec<usize> = Vec::new();
    assert(index_view(v@) =~= Seq::<int>::empty());
    v
}

proof fn lemma_first_with_manifest_prefix(pkgs: Seq<PackageInfo>, manifest: Seq<char>, n: int)
    requires
        0 < n <= pkgs.len(),
        first_with_manifest(pkgs.subrange(0, n), manifest) is Some,
    ensures
        first_with_manifest(pkgs, manifest) == first_with_manifest(pkgs.subrange(0, n), manifest),
    decreases pkgs.len() - n,
{
    if n < pkgs.len() {
        assert(pkgs.subrange(0, n + 1).drop_last() =~= pkgs.subrange(0, n));
        lemma_first_with_manifest_prefix(pkgs, manifest, n + 1);
    } else {
        assert(pkgs.subrange(0, n) =~= pkgs);
    }
}

/// The package that `ohrs build` builds: the first whose manifest is the
/// working directory's `manifest` (compared component by component), or
/// the message that there is none.
pub fn package_with_manifest(pkgs: &Vec<PackageInfo>, manifest: &str) -> (r: Result<usize, String>)
    ensures
        match r {
            Ok(k) => first_with_manifest(pkgs@, manifest@) == Some(k as int),
            Err(m) => first_with_manifest(pkgs@, manifest@) is None && m@
                == "Try to get package meta-info failed."@,
        },
{
    let mut k: usize = 0;
    while k < pkgs.len()
        invariant
            k <= pkgs@.len(),
            first_with_manifest(pkgs@.subrange(0, k as int), manifest@) is None,
        decreases pkgs@.len() - k,
    {
        assert(pkgs@.subrange(0, k + 1).drop_last() =~= pkgs@.subrange(0, k as int));
        if crate::paths::same_path(pkgs[k].manifest_path.as_str(), manifest) {
            assert(first_with_manifest(pkgs@.subrange(0, k + 1), manifest@) == Some(k as int));
            proof {
                lemma_first_with_manifest_prefix(pkgs@, manifest@, k + 1);
            }
            return Ok(k);
        }
        k = k + 1;
    }
    assert(pkgs@.subrange(0, pkgs@.len() as int) =~= pkgs@);
    Err("Try to get package meta-info failed.".to_owned())
}

} // verus!

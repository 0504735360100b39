//! The runtime closure of a native build as a state machine.
//!
//! Starting from the shared objects that cargo produced, every library that
//! one of them needs is looked for beside it, then in the dependency and the
//! NDK runtime directories; what is found there is shipped and examined in
//! turn, what only the system directories hold is left to the device, and
//! anything else fails the build.
//!
//! Canonicalising a path, reading the `DT_NEEDED` entries of an ELF file
//! and asking whether a file exists are the caller's work: each `step`
//! takes what that work reported and says what to do next.

use vstd::prelude::*;
use crate::needed::parse_needed_libraries;
use crate::paths::{is_shared_object, join_path, parent_of};
use crate::runtime::{validate_soname, RuntimeLibrary};
use crate::search::deduplicate_paths;

verus! {

broadcast use vstd::string::group_string_axioms;

// ---------------------------------------------------------------------
// The model
// ---------------------------------------------------------------------

/// What the resolver waits for.
pub enum PhaseModel {
    /// The canonical form of this requester.
    Identify(Seq<char>),
    /// The needed libraries of this requester.
    ReadNeeded(Seq<char>),
    /// Which candidates exist for `needed[index]`, needed by `requester`.
    Probe { requester: Seq<char>, needed: Seq<Seq<char>>, index: int },
    /// Nothing: the resolution is over.
    Finished,
}

/// The state of a resolution.
pub struct ResolverModel {
    /// The shared objects the resolution started from.
    pub roots: Seq<Seq<char>>,
    /// The dependency search directories, canonical and without repeats.
    pub deps: Seq<Seq<char>>,
    /// The NDK runtime directories, canonical and without repeats.
    pub runtime: Seq<Seq<char>>,
    /// The system directories, canonical and without repeats.
    pub system: Seq<Seq<char>>,
    /// The files still to be examined, first in first out.
    pub pending: Seq<Seq<char>>,
    /// The identities of the files already examined.
    pub scanned: Seq<Seq<char>>,
    /// The library names already dealt with.
    pub handled: Seq<Seq<char>>,
    /// The libraries to ship so far, as (source, soname).
    pub resolved: Seq<(Seq<char>, Seq<char>)>,
    pub phase: PhaseModel,
}

/// Why a resolution failed, over plain values.
pub enum ErrorModel {
    ReadFailed(Seq<char>, Option<Seq<char>>),
    Malformed(Seq<char>),
    InvalidSoname(Seq<char>),
    Unresolved(Seq<char>, Seq<char>),
    OutOfTurn,
}

/// What the resolver asks for next, over plain values.
pub enum ActionModel {
    Identify(Seq<char>),
    ReadNeeded(Seq<char>),
    Probe(Seq<Seq<char>>),
    Done(Seq<(Seq<char>, Seq<char>)>),
    Failed(ErrorModel),
}

/// What the caller reports, over plain values.
pub enum EventModel {
    Identity(Option<Seq<char>>),
    Needed(Result<Seq<char>, Option<Seq<char>>>),
    Probed(Seq<bool>),
}

/// The shared objects among `paths`, in order.
pub open spec fn shared_objects(paths: Seq<Seq<char>>) -> Seq<Seq<char>>
    decreases paths.len(),
{
    if paths.len() == 0 {
        Seq::<Seq<char>>::empty()
    } else if crate::paths::has_so_extension(paths.last()) {
        shared_objects(paths.drop_last()).push(paths.last())
    } else {
        shared_objects(paths.drop_last())
    }
}

/// `name` joined to each of `dirs`.
pub open spec fn joined_with(dirs: Seq<Seq<char>>, name: Seq<char>) -> Seq<Seq<char>> {
    dirs.map_values(|d: Seq<char>| crate::paths::path_join(d, name))
}

/// `name` beside `requester`, when `requester` has a parent directory.
pub open spec fn beside(requester: Seq<char>, name: Seq<char>) -> Seq<Seq<char>> {
    match crate::paths::path_parent(requester) {
        Some(p) => seq![crate::paths::path_join(p, name)],
        None => Seq::<Seq<char>>::empty(),
    }
}

/// The places from which `name` would be shipped, in the order they are
/// preferred: beside the requester, in the dependency directories, in the
/// runtime directories.
pub open spec fn shipped_candidates(m: ResolverModel, requester: Seq<char>, name: Seq<char>) -> Seq<
    Seq<char>,
> {
    beside(requester, name) + joined_with(m.deps, name) + joined_with(m.runtime, name)
}

/// Every place probed for `name`: the shipped candidates, then the system
/// directories.
pub open spec fn probe_candidates(m: ResolverModel, requester: Seq<char>, name: Seq<char>) -> Seq<
    Seq<char>,
> {
    shipped_candidates(m, requester, name) + joined_with(m.system, name)
}

/// The first index below `n` at which `found` holds.
pub open spec fn first_found(found: Seq<bool>, n: int) -> Option<int>
    decreases n,
{
    if n <= 0 {
        None
    } else {
        match first_found(found, n - 1) {
            Some(k) => Some(k),
            None => if found[n - 1] {
                Some(n - 1)
            } else {
                None
            },
        }
    }
}

/// Whether `found` holds somewhere in `[from, found.len())`.
pub open spec fn found_from(found: Seq<bool>, from: int) -> bool {
    exists|k: int| from <= k < found.len() && #[trigger] found[k]
}

/// The resolution ends with `e`.
pub open spec fn fail(m: ResolverModel, e: ErrorModel) -> (ResolverModel, ActionModel) {
    (ResolverModel { phase: PhaseModel::Finished, ..m }, ActionModel::Failed(e))
}

/// Takes the next file to examine, or ends with the libraries found.
pub open spec fn pop_pending(m: ResolverModel) -> (ResolverModel, ActionModel) {
    if m.pending.len() == 0 {
        (ResolverModel { phase: PhaseModel::Finished, ..m }, ActionModel::Done(m.resolved))
    } else {
        (
            ResolverModel {
                pending: m.pending.drop_first(),
                phase: PhaseModel::Identify(m.pending[0]),
                ..m
            },
            ActionModel::Identify(m.pending[0]),
        )
    }
}

/// Goes on from `needed[i]`: names already dealt with are passed over; the
/// next one is refused when it is not a bare file name, else probed; past
/// the end, the next file is taken.
pub open spec fn next_soname(m: ResolverModel, requester: Seq<char>, needed: Seq<Seq<char>>, i: int) -> (
    ResolverModel,
    ActionModel,
)
    decreases needed.len() - i,
{
    if i < 0 || i >= needed.len() {
        pop_pending(m)
    } else if m.handled.contains(needed[i]) {
        next_soname(m, requester, needed, i + 1)
    } else {
        let name = needed[i];
        let m2 = ResolverModel { handled: m.handled.push(name), ..m };
        if !crate::runtime::is_bare_file_name(name) {
            fail(m2, ErrorModel::InvalidSoname(name))
        } else {
            (
                ResolverModel {
                    phase: PhaseModel::Probe { requester, needed, index: i },
                    ..m2
                },
                ActionModel::Probe(probe_candidates(m, requester, name)),
            )
        }
    }
}

/// What the probe results decide for `needed[index]`: the first shipped
/// candidate that exists is shipped and queued; failing one, a system
/// library is left alone; failing that, the resolution fails.
pub open spec fn after_probe(
    m: ResolverModel,
    requester: Seq<char>,
    needed: Seq<Seq<char>>,
    index: int,
    found: Seq<bool>,
) -> (ResolverModel, ActionModel) {
    let name = needed[index];
    let cands = probe_candidates(m, requester, name);
    let n_ship = shipped_candidates(m, requester, name).len() as int;
    if found.len() != cands.len() {
        fail(m, ErrorModel::OutOfTurn)
    } else {
        match first_found(found, n_ship) {
            Some(k) => next_soname(
                ResolverModel {
                    pending: m.pending.push(cands[k]),
                    resolved: m.resolved.push((cands[k], name)),
                    ..m
                },
                requester,
                needed,
                index + 1,
            ),
            None => if found_from(found, n_ship) {
                next_soname(m, requester, needed, index + 1)
            } else {
                fail(m, ErrorModel::Unresolved(name, requester))
            },
        }
    }
}

/// One transition: the state that follows `m` on `e`, and what to do next.
pub open spec fn on_event(m: ResolverModel, e: EventModel) -> (ResolverModel, ActionModel) {
    match m.phase {
        PhaseModel::Identify(req) => match e {
            EventModel::Identity(id) => {
                let ident = match id {
                    Some(c) => c,
                    None => req,
                };
                if m.scanned.contains(ident) {
                    pop_pending(m)
                } else {
                    (
                        ResolverModel {
                            scanned: m.scanned.push(ident),
                            phase: PhaseModel::ReadNeeded(req),
                            ..m
                        },
                        ActionModel::ReadNeeded(req),
                    )
                }
            },
            _ => fail(m, ErrorModel::OutOfTurn),
        },
        PhaseModel::ReadNeeded(req) => match e {
            EventModel::Needed(Ok(out)) => if crate::needed::needed_section_complete(out) {
                next_soname(m, req, crate::needed::needed_libraries_of(out), 0)
            } else {
                fail(m, ErrorModel::Malformed(req))
            },
            EventModel::Needed(Err(reason)) => fail(m, ErrorModel::ReadFailed(req, reason)),
            _ => fail(m, ErrorModel::OutOfTurn),
        },
        PhaseModel::Probe { requester, needed, index } => match e {
            EventModel::Probed(found) => after_probe(m, requester, needed, index, found),
            _ => fail(m, ErrorModel::OutOfTurn),
        },
        PhaseModel::Finished => fail(m, ErrorModel::OutOfTurn),
    }
}

/// The state before the first file is taken.
pub open spec fn initial_model(
    roots: Seq<Seq<char>>,
    deps: Seq<Option<Seq<char>>>,
    runtime: Seq<Option<Seq<char>>>,
    system: Seq<Option<Seq<char>>>,
) -> ResolverModel {
    ResolverModel {
        roots: shared_objects(roots),
        deps: crate::search::dedup_first(crate::search::present_dirs(deps)),
        runtime: crate::search::dedup_first(crate::search::present_dirs(runtime)),
        system: crate::search::dedup_first(crate::search::present_dirs(system)),
        pending: shared_objects(roots),
        scanned: Seq::<Seq<char>>::empty(),
        handled: Seq::<Seq<char>>::empty(),
        resolved: Seq::<(Seq<char>, Seq<char>)>::empty(),
        phase: PhaseModel::Finished,
    }
}

// ---------------------------------------------------------------------
// What every state keeps
// ---------------------------------------------------------------------

/// Whether `src` is `name` inside some directory.
pub open spec fn names_file(src: Seq<char>, name: Seq<char>) -> bool {
    exists|d: Seq<char>| #[trigger] crate::paths::path_join(d, name) == src
}

/// What holds of a list of libraries to ship: no name twice, each a bare
/// file name, each source that name inside some directory.
pub open spec fn shipment_ok(list: Seq<(Seq<char>, Seq<char>)>) -> bool {
    &&& forall|i: int, j: int| 0 <= i < j < list.len() ==> (#[trigger] list[i]).1 != (#[trigger] list[j]).1
    &&& forall|i: int| 0 <= i < list.len() ==> crate::runtime::is_bare_file_name((#[trigger] list[i]).1)
    &&& forall|i: int| 0 <= i < list.len() ==> names_file((#[trigger] list[i]).0, list[i].1)
}

/// What holds of every state apart from its phase: the shipment so far is
/// well formed, every shipped name has been dealt with, no name is dealt
/// with twice, no file is examined twice, and every file waiting to be
/// examined is a root or a shipped library.
pub open spec fn state_ok(m: ResolverModel) -> bool {
    &&& shipment_ok(m.resolved)
    &&& m.handled.no_duplicates()
    &&& m.scanned.no_duplicates()
    &&& forall|i: int| 0 <= i < m.resolved.len() ==> m.handled.contains((#[trigger] m.resolved[i]).1)
    &&& forall|p: Seq<char>| #[trigger] m.pending.contains(p) ==> m.roots.contains(p) || exists|i: int|
        0 <= i < m.resolved.len() && (#[trigger] m.resolved[i]).0 == p
}

/// What the phase adds: a name being probed has been dealt with, is a bare
/// file name and is not shipped yet.
pub open spec fn phase_ok(m: ResolverModel) -> bool {
    match m.phase {
        PhaseModel::Probe { requester, needed, index } => {
            &&& 0 <= index < needed.len()
            &&& m.handled.contains(needed[index])
            &&& crate::runtime::is_bare_file_name(needed[index])
            &&& forall|i: int| 0 <= i < m.resolved.len() ==> (#[trigger] m.resolved[i]).1 != needed[index]
        },
        _ => true,
    }
}

/// The invariant of the resolution.
pub open spec fn resolver_inv(m: ResolverModel) -> bool {
    state_ok(m) && phase_ok(m)
}

proof fn lemma_push_fresh(s: Seq<Seq<char>>, x: Seq<char>)
    requires
        s.no_duplicates(),
        !s.contains(x),
    ensures
        s.push(x).no_duplicates(),
{
    let t = s.push(x);
    assert forall|i: int, j: int| 0 <= i < t.len() && 0 <= j < t.len() && i != j implies t[i]
        != t[j] by {
        if i < s.len() && j < s.len() {
            assert(t[i] == s[i] && t[j] == s[j]);
        } else if i < s.len() {
            assert(t[i] == s[i]);
        } else if j < s.len() {
            assert(t[j] == s[j]);
        }
    }
}

proof fn lemma_first_found(found: Seq<bool>, n: int)
    ensures
        first_found(found, n) matches Some(k) ==> 0 <= k < n && found[k],
        first_found(found, n) is None ==> forall|k: int| 0 <= k < n ==> !#[trigger] found[k],
    decreases n,
{
    if n > 0 {
        lemma_first_found(found, n - 1);
    }
}

proof fn lemma_candidates_name_files(m: ResolverModel, requester: Seq<char>, name: Seq<char>)
    ensures
        forall|k: int|
            0 <= k < probe_candidates(m, requester, name).len() ==> names_file(
                #[trigger] probe_candidates(m, requester, name)[k],
                name,
            ),
{
    let b = beside(requester, name);
    let jd = joined_with(m.deps, name);
    let jr = joined_with(m.runtime, name);
    let js = joined_with(m.system, name);
    let c = probe_candidates(m, requester, name);
    assert(c =~= b + jd + jr + js);
    assert forall|k: int| 0 <= k < c.len() implies names_file(#[trigger] c[k], name) by {
        if k < b.len() {
            let p = crate::paths::path_parent(requester)->0;
            assert(c[k] == crate::paths::path_join(p, name));
        } else if k < b.len() + jd.len() {
            let d = m.deps[k - b.len()];
            assert(c[k] == crate::paths::path_join(d, name));
        } else if k < b.len() + jd.len() + jr.len() {
            let d = m.runtime[k - b.len() - jd.len()];
            assert(c[k] == crate::paths::path_join(d, name));
        } else {
            let d = m.system[k - b.len() - jd.len() - jr.len()];
            assert(c[k] == crate::paths::path_join(d, name));
        }
    }
}

proof fn lemma_pop_pending(m: ResolverModel)
    requires
        state_ok(m),
    ensures
        resolver_inv(pop_pending(m).0),
{
    let r = pop_pending(m).0;
    if m.pending.len() > 0 {
        assert forall|p: Seq<char>| #[trigger] r.pending.contains(p) implies r.roots.contains(p)
            || exists|i: int| 0 <= i < r.resolved.len() && (#[trigger] r.resolved[i]).0 == p by {
            let k = choose|k: int| 0 <= k < r.pending.len() && r.pending[k] == p;
            assert(m.pending[k + 1] == p);
            assert(m.pending.contains(p));
            if !m.roots.contains(p) {
                let a = choose|a: int| 0 <= a < m.resolved.len() && (#[trigger] m.resolved[a]).0 == p;
                assert(r.resolved[a] == m.resolved[a]);
            }
        }
    }
}

proof fn lemma_next_soname(m: ResolverModel, requester: Seq<char>, needed: Seq<Seq<char>>, i: int)
    requires
        state_ok(m),
    ensures
        resolver_inv(next_soname(m, requester, needed, i).0),
    decreases needed.len() - i,
{
    if i < 0 || i >= needed.len() {
        lemma_pop_pending(m);
    } else if m.handled.contains(needed[i]) {
        lemma_next_soname(m, requester, needed, i + 1);
    } else {
        let name = needed[i];
        let m2 = ResolverModel { handled: m.handled.push(name), ..m };
        lemma_push_fresh(m.handled, name);
        assert forall|j: int| 0 <= j < m2.resolved.len() implies m2.handled.contains(
            (#[trigger] m2.resolved[j]).1,
        ) by {
            let k = choose|k: int| 0 <= k < m.handled.len() && m.handled[k] == m.resolved[j].1;
            assert(m2.handled[k] == m.resolved[j].1);
        }
        assert(m2.handled[m.handled.len() as int] == name);
        assert forall|j: int| 0 <= j < m2.resolved.len() implies (#[trigger] m2.resolved[j]).1
            != name by {
            assert(m.handled.contains(m.resolved[j].1));
        }
    }
}

proof fn lemma_after_probe(
    m: ResolverModel,
    requester: Seq<char>,
    needed: Seq<Seq<char>>,
    index: int,
    found: Seq<bool>,
)
    requires
        resolver_inv(m),
        m.phase == (PhaseModel::Probe { requester, needed, index }),
    ensures
        resolver_inv(after_probe(m, requester, needed, index, found).0),
{
    let name = needed[index];
    let cands = probe_candidates(m, requester, name);
    let n_ship = shipped_candidates(m, requester, name).len() as int;
    assert(cands.len() >= n_ship);
    if found.len() == cands.len() {
        lemma_first_found(found, n_ship);
        match first_found(found, n_ship) {
            Some(k) => {
                lemma_candidates_name_files(m, requester, name);
                let src = cands[k];
                let m2 = ResolverModel {
                    pending: m.pending.push(src),
                    resolved: m.resolved.push((src, name)),
                    ..m
                };
                let n = m.resolved.len() as int;
                assert(m2.resolved[n] == (src, name));
                assert forall|a: int, b: int| 0 <= a < b < m2.resolved.len() implies (
                #[trigger] m2.resolved[a]).1 != (#[trigger] m2.resolved[b]).1 by {
                    if b < n {
                        assert(m2.resolved[a] == m.resolved[a]);
                        assert(m2.resolved[b] == m.resolved[b]);
                    } else {
                        assert(m2.resolved[a] == m.resolved[a]);
                    }
                }
                assert forall|a: int| 0 <= a < m2.resolved.len() implies crate::runtime::is_bare_file_name(
                    (#[trigger] m2.resolved[a]).1,
                ) && names_file(m2.resolved[a].0, m2.resolved[a].1) && m2.handled.contains(
                    m2.resolved[a].1,
                ) by {
                    if a < n {
                        assert(m2.resolved[a] == m.resolved[a]);
                    }
                }
                assert forall|p: Seq<char>| #[trigger] m2.pending.contains(p) implies m2.roots.contains(
                    p,
                ) || exists|a: int| 0 <= a < m2.resolved.len() && (#[trigger] m2.resolved[a]).0
                    == p by {
                    let j = choose|j: int| 0 <= j < m2.pending.len() && m2.pending[j] == p;
                    if j < m.pending.len() {
                        assert(m.pending[j] == p);
                        assert(m.pending.contains(p));
                        if !m.roots.contains(p) {
                            let a = choose|a: int| 0 <= a < m.resolved.len() && (
                            #[trigger] m.resolved[a]).0 == p;
                            assert(m2.resolved[a] == m.resolved[a]);
                        }
                    } else {
                        assert(m2.resolved[n].0 == p);
                    }
                }
                lemma_next_soname(m2, requester, needed, index + 1);
            },
            None => {
                if found_from(found, n_ship) {
                    lemma_next_soname(m, requester, needed, index + 1);
                }
            },
        }
    }
}

/// Every transition keeps the invariant: whatever the caller reports, the
/// libraries to ship stay distinct by name, bare file names, each the name
/// inside some directory, and every file queued is a root or one of them.
pub proof fn lemma_transition_keeps_invariant(m: ResolverModel, e: EventModel)
    requires
        resolver_inv(m),
    ensures
        resolver_inv(on_event(m, e).0),
{
    match m.phase {
        PhaseModel::Identify(req) => match e {
            EventModel::Identity(id) => {
                let ident = match id {
                    Some(c) => c,
                    None => req,
                };
                if m.scanned.contains(ident) {
                    lemma_pop_pending(m);
                } else {
                    lemma_push_fresh(m.scanned, ident);
                }
            },
            _ => {},
        },
        PhaseModel::ReadNeeded(req) => match e {
            EventModel::Needed(Ok(out)) => {
                if crate::needed::needed_section_complete(out) {
                    lemma_next_soname(m, req, crate::needed::needed_libraries_of(out), 0);
                }
            },
            _ => {},
        },
        PhaseModel::Probe { requester, needed, index } => match e {
            EventModel::Probed(found) => {
                lemma_after_probe(m, requester, needed, index, found);
            },
            _ => {},
        },
        PhaseModel::Finished => {},
    }
}

/// The first state of a resolution satisfies the invariant.
pub proof fn lemma_start_satisfies_invariant(
    roots: Seq<Seq<char>>,
    deps: Seq<Option<Seq<char>>>,
    runtime: Seq<Option<Seq<char>>>,
    system: Seq<Option<Seq<char>>>,
)
    ensures
        resolver_inv(pop_pending(initial_model(roots, deps, runtime, system)).0),
{
    let m = initial_model(roots, deps, runtime, system);
    assert forall|p: Seq<char>| #[trigger] m.pending.contains(p) implies m.roots.contains(p) by {}
    lemma_pop_pending(m);
}

proof fn lemma_next_soname_keeps_resolved(m: ResolverModel, requester: Seq<char>, needed: Seq<Seq<char>>, i: int)
    ensures
        next_soname(m, requester, needed, i).0.resolved == m.resolved,
    decreases needed.len() - i,
{
    if i >= 0 && i < needed.len() && m.handled.contains(needed[i]) {
        lemma_next_soname_keeps_resolved(m, requester, needed, i + 1);
    }
}

/// A library found only in the system directories is left to the device:
/// when no place it would be shipped from has it, the probe ships nothing.
pub proof fn lemma_system_only_ships_nothing(m: ResolverModel, found: Seq<bool>)
    requires
        m.phase is Probe,
        first_found(
            found,
            shipped_candidates(m, m.phase->requester, m.phase->needed[m.phase->index]).len() as int,
        ) is None,
    ensures
        on_event(m, EventModel::Probed(found)).0.resolved == m.resolved,
{
    let requester = m.phase->requester;
    let needed = m.phase->needed;
    let index = m.phase->index;
    lemma_next_soname_keeps_resolved(m, requester, needed, index + 1);
}

/// A resolution that ends with a list of libraries ends with one that has
/// no name twice, only bare file names, and each source the name inside a
/// directory.
pub proof fn lemma_done_shipment_ok(m: ResolverModel, e: EventModel)
    requires
        resolver_inv(m),
    ensures
        on_event(m, e).1 matches ActionModel::Done(list) ==> shipment_ok(list),
{
    lemma_transition_keeps_invariant(m, e);
    lemma_done_is_resolved(m, e);
}

proof fn lemma_next_soname_done(m: ResolverModel, requester: Seq<char>, needed: Seq<Seq<char>>, i: int)
    ensures
        next_soname(m, requester, needed, i).1 matches ActionModel::Done(list) ==> list == next_soname(
            m,
            requester,
            needed,
            i,
        ).0.resolved,
    decreases needed.len() - i,
{
    if i >= 0 && i < needed.len() && m.handled.contains(needed[i]) {
        lemma_next_soname_done(m, requester, needed, i + 1);
    }
}

proof fn lemma_done_is_resolved(m: ResolverModel, e: EventModel)
    ensures
        on_event(m, e).1 matches ActionModel::Done(list) ==> list == on_event(m, e).0.resolved,
{
    match m.phase {
        PhaseModel::ReadNeeded(req) => match e {
            EventModel::Needed(Ok(out)) => {
                lemma_next_soname_done(m, req, crate::needed::needed_libraries_of(out), 0);
            },
            _ => {},
        },
        PhaseModel::Probe { requester, needed, index } => match e {
            EventModel::Probed(found) => {
                let name = needed[index];
                let cands = probe_candidates(m, requester, name);
                let n_ship = shipped_candidates(m, requester, name).len() as int;
                match first_found(found, n_ship) {
                    Some(k) => {
                        lemma_next_soname_done(
                            ResolverModel {
                                pending: m.pending.push(cands[k]),
                                resolved: m.resolved.push((cands[k], name)),
                                ..m
                            },
                            requester,
                            needed,
                            index + 1,
                        );
                    },
                    None => {
                        lemma_next_soname_done(m, requester, needed, index + 1);
                    },
                }
            },
            _ => {},
        },
        _ => {},
    }
}

} // verus!

verus! {

// ---------------------------------------------------------------------
// The executable machine
// ---------------------------------------------------------------------

/// What the caller reports back after doing what the last action asked.
#[derive(Debug, PartialEq, Eq)]
pub enum ResolveEvent {
    /// The canonical form of the file named by `Identify`, `None` when it
    /// could not be had.
    Identity(Option<String>),
    /// What `llvm-readobj --needed-libs` gave for the file named by
    /// `ReadNeeded`: its standard output when it ran and succeeded;
    /// `Err(Some(stderr))` when it ran and failed; `Err(None)` when it
    /// could not be run.
    Needed(Result<String, Option<String>>),
    /// For each path of the last `Probe`, in order, whether it is a file.
    Probed(Vec<bool>),
}

/// Why a resolution failed.
#[derive(Debug, PartialEq, Eq)]
pub enum ResolveError {
    /// The needed libraries of `requester` could not be read: the reader
    /// failed with `reason`, or (`None`) could not be run.
    ReadFailed { requester: String, reason: Option<String> },
    /// The reader's output for `requester` had no complete list.
    Malformed { requester: String },
    /// A needed library's name is not a bare file name.
    InvalidSoname { soname: String },
    /// A needed library was found neither to ship nor on the system.
    Unresolved { soname: String, requester: String },
    /// An event came that the resolver had not asked for.
    OutOfTurn,
}

/// What the resolver asks the caller to do next.
#[derive(Debug, PartialEq, Eq)]
pub enum ResolveAction {
    /// Report the canonical form of this file.
    Identify(String),
    /// Report what the ELF reader says this file needs.
    ReadNeeded(String),
    /// Report which of these paths are files.
    Probe(Vec<String>),
    /// The resolution is over: these libraries are to be shipped.
    Done(Vec<RuntimeLibrary>),
    /// The resolution failed.
    Failed(ResolveError),
}

enum Phase {
    Identify(String),
    ReadNeeded(String),
    Probe { requester: String, needed: Vec<String>, index: usize },
    Finished,
}

/// A resolution under way.
pub struct RuntimeResolver {
    roots: Ghost<Seq<Seq<char>>>,
    deps: Vec<String>,
    runtime: Vec<String>,
    system: Vec<String>,
    pending: Vec<String>,
    scanned: Vec<String>,
    handled: Vec<String>,
    resolved: Vec<RuntimeLibrary>,
    phase: Phase,
}

impl View for ResolveEvent {
    type V = EventModel;

    open spec fn view(&self) -> EventModel {
        match self {
            ResolveEvent::Identity(o) => EventModel::Identity(
                match o {
                    Some(s) => Some(s@),
                    None => None,
                },
            ),
            ResolveEvent::Needed(r) => EventModel::Needed(
                match r {
                    Ok(s) => Ok(s@),
                    Err(Some(e)) => Err(Some(e@)),
                    Err(None) => Err(None),
                },
            ),
            ResolveEvent::Probed(v) => EventModel::Probed(v@),
        }
    }
}

impl View for ResolveError {
    type V = ErrorModel;

    open spec fn view(&self) -> ErrorModel {
        match self {
            ResolveError::ReadFailed { requester, reason } => ErrorModel::ReadFailed(
                requester@,
                match reason {
                    Some(r) => Some(r@),
                    None => None,
                },
            ),
            ResolveError::Malformed { requester } => ErrorModel::Malformed(requester@),
            ResolveError::InvalidSoname { soname } => ErrorModel::InvalidSoname(soname@),
            ResolveError::Unresolved { soname, requester } => ErrorModel::Unresolved(
                soname@,
                requester@,
            ),
            ResolveError::OutOfTurn => ErrorModel::OutOfTurn,
        }
    }
}

impl View for ResolveAction {
    type V = ActionModel;

    open spec fn view(&self) -> ActionModel {
        match self {
            ResolveAction::Identify(s) => ActionModel::Identify(s@),
            ResolveAction::ReadNeeded(s) => ActionModel::ReadNeeded(s@),
            ResolveAction::Probe(v) => ActionModel::Probe(crate::text::string_views(v@)),
            ResolveAction::Done(v) => ActionModel::Done(crate::runtime::library_views(v@)),
            ResolveAction::Failed(e) => ActionModel::Failed(e@),
        }
    }
}

impl View for Phase {
    type V = PhaseModel;

    closed spec fn view(&self) -> PhaseModel {
        match self {
            Phase::Identify(s) => PhaseModel::Identify(s@),
            Phase::ReadNeeded(s) => PhaseModel::ReadNeeded(s@),
            Phase::Probe { requester, needed, index } => PhaseModel::Probe {
                requester: requester@,
                needed: crate::text::string_views(needed@),
                index: *index as int,
            },
            Phase::Finished => PhaseModel::Finished,
        }
    }
}

impl View for RuntimeResolver {
    type V = ResolverModel;

    closed spec fn view(&self) -> ResolverModel {
        ResolverModel {
            roots: self.roots@,
            deps: crate::text::string_views(self.deps@),
            runtime: crate::text::string_views(self.runtime@),
            system: crate::text::string_views(self.system@),
            pending: crate::text::string_views(self.pending@),
            scanned: crate::text::string_views(self.scanned@),
            handled: crate::text::string_views(self.handled@),
            resolved: crate::runtime::library_views(self.resolved@),
            phase: self.phase@,
        }
    }
}

fn copy_strings(v: &Vec<String>) -> (r: Vec<String>)
    ensures
        crate::text::string_views(r@) == crate::text::string_views(v@),
{
    let mut out: Vec<String> = Vec::new();
    let mut i: usize = 0;
    while i < v.len()
        invariant
            i <= v@.len(),
            crate::text::string_views(out@) == crate::text::string_views(v@).subrange(0, i as int),
        decreases v@.len() - i,
    {
        let ghost before = crate::text::string_views(out@);
        out.push(v[i].clone());
        assert(crate::text::string_views(out@) =~= before.push(v@[i as int]@));
        assert(crate::text::string_views(v@).subrange(0, i + 1) =~= crate::text::string_views(
            v@,
        ).subrange(0, i as int).push(v@[i as int]@));
        i = i + 1;
    }
    assert(crate::text::string_views(v@).subrange(0, v@.len() as int) =~= crate::text::string_views(
        v@,
    ));
    out
}

fn copy_libraries(v: &Vec<RuntimeLibrary>) -> (r: Vec<RuntimeLibrary>)
    ensures
        crate::runtime::library_views(r@) == crate::runtime::library_views(v@),
{
    let mut out: Vec<RuntimeLibrary> = Vec::new();
    let mut i: usize = 0;
    while i < v.len()
        invariant
            i <= v@.len(),
            crate::runtime::library_views(out@) == crate::runtime::library_views(v@).subrange(
                0,
                i as int,
            ),
        decreases v@.len() - i,
    {
        let ghost before = crate::runtime::library_views(out@);
        out.push(RuntimeLibrary { source: v[i].source.clone(), soname: v[i].soname.clone() });
        assert(crate::runtime::library_views(out@) =~= before.push(v@[i as int]@));
        assert(crate::runtime::library_views(v@).subrange(0, i + 1) =~= crate::runtime::library_views(
            v@,
        ).subrange(0, i as int).push(v@[i as int]@));
        i = i + 1;
    }
    assert(crate::runtime::library_views(v@).subrange(0, v@.len() as int)
        =~= crate::runtime::library_views(v@));
    out
}

fn push_joined(out: &mut Vec<String>, dirs: &Vec<String>, name: &String)
    ensures
        crate::text::string_views(final(out)@) == crate::text::string_views(old(out)@) + joined_with(
            crate::text::string_views(dirs@),
            name@,
        ),
{
    let ghost start = crate::text::string_views(out@);
    let ghost dv = crate::text::string_views(dirs@);
    let mut i: usize = 0;
    while i < dirs.len()
        invariant
            i <= dirs@.len(),
            dv == crate::text::string_views(dirs@),
            crate::text::string_views(out@) == start + joined_with(dv, name@).subrange(0, i as int),
        decreases dirs@.len() - i,
    {
        let p = join_path(dirs[i].as_str(), name.as_str());
        let ghost before = crate::text::string_views(out@);
        out.push(p);
        assert(crate::text::string_views(out@) =~= before.push(joined_with(dv, name@)[i as int]));
        assert(joined_with(dv, name@).subrange(0, i + 1) =~= joined_with(dv, name@).subrange(
            0,
            i as int,
        ).push(joined_with(dv, name@)[i as int]));
        i = i + 1;
    }
    assert(joined_with(dv, name@).subrange(0, dirs@.len() as int) =~= joined_with(dv, name@));
}

proof fn lemma_first_found_at(found: Seq<bool>, n: int, k: int)
    requires
        0 <= k < n,
        found[k],
        forall|j: int| 0 <= j < k ==> !#[trigger] found[j],
    ensures
        first_found(found, n) == Some(k),
    decreases n,
{
    if n - 1 > k {
        lemma_first_found_at(found, n - 1, k);
    } else {
        lemma_first_found_none(found, k);
    }
}

proof fn lemma_first_found_none(found: Seq<bool>, n: int)
    requires
        forall|j: int| 0 <= j < n ==> !#[trigger] found[j],
    ensures
        first_found(found, n) is None,
    decreases n,
{
    if n > 0 {
        lemma_first_found_none(found, n - 1);
    }
}

impl RuntimeResolver {
    /// The paths to probe for `name` needed by `requester`, and how many of
    /// them, from the front, are places it would be shipped from.
    fn candidates(&self, requester: &String, name: &String) -> (r: (Vec<String>, usize))
        ensures
            crate::text::string_views(r.0@) == probe_candidates(self@, requester@, name@),
            r.1 == shipped_candidates(self@, requester@, name@).len(),
    {
        let mut out: Vec<String> = Vec::new();
        match parent_of(requester.as_str()) {
            Some(p) => {
                out.push(join_path(p.as_str(), name.as_str()));
            },
            None => {},
        }
        assert(crate::text::string_views(out@) =~= beside(requester@, name@));
        push_joined(&mut out, &self.deps, name);
        push_joined(&mut out, &self.runtime, name);
        let n_ship = out.len();
        push_joined(&mut out, &self.system, name);
        (out, n_ship)
    }

    fn pop_next(self) -> (r: (RuntimeResolver, ResolveAction))
        ensures
            (r.0@, r.1@) == pop_pending(self@),
    {
        let mut s = self;
        if s.pending.len() == 0 {
            let done = copy_libraries(&s.resolved);
            s.phase = Phase::Finished;
            (s, ResolveAction::Done(done))
        } else {
            let ghost before = crate::text::string_views(s.pending@);
            let req = s.pending.remove(0);
            assert(crate::text::string_views(s.pending@) =~= before.drop_first());
            s.phase = Phase::Identify(req.clone());
            (s, ResolveAction::Identify(req))
        }
    }

    fn fail_with(self, e: ResolveError) -> (r: (RuntimeResolver, ResolveAction))
        ensures
            (r.0@, r.1@) == fail(self@, e@),
    {
        let mut s = self;
        s.phase = Phase::Finished;
        (s, ResolveAction::Failed(e))
    }

    fn next_soname_from(self, requester: String, needed: Vec<String>, from: usize) -> (r: (
        RuntimeResolver,
        ResolveAction,
    ))
        requires
            from <= needed@.len(),
        ensures
            (r.0@, r.1@) == next_soname(
                self@,
                requester@,
                crate::text::string_views(needed@),
                from as int,
            ),
    {
        let ghost nv = crate::text::string_views(needed@);
        let mut i: usize = from;
        while i < needed.len() && crate::search::contains_string(&self.handled, &needed[i])
            invariant
                from <= i <= needed@.len(),
                nv == crate::text::string_views(needed@),
                next_soname(self@, requester@, nv, i as int) == next_soname(
                    self@,
                    requester@,
                    nv,
                    from as int,
                ),
            decreases needed@.len() - i,
        {
            i = i + 1;
        }
        if i >= needed.len() {
            return self.pop_next();
        }
        let name = needed[i].clone();
        assert(nv[i as int] == name@);
        let ghost m0 = self@;
        let (cands, _n_ship) = self.candidates(&requester, &name);
        let mut s = self;
        let ghost hv = crate::text::string_views(s.handled@);
        s.handled.push(name.clone());
        assert(crate::text::string_views(s.handled@) =~= hv.push(name@));
        match validate_soname(name.as_str()) {
            Ok(()) => {
                s.phase = Phase::Probe { requester, needed, index: i };
                (s, ResolveAction::Probe(cands))
            },
            Err(_) => {
                s.phase = Phase::Finished;
                (s, ResolveAction::Failed(ResolveError::InvalidSoname { soname: name }))
            },
        }
    }

    fn after_probe_exec(self, requester: String, needed: Vec<String>, index: usize, found: Vec<bool>) -> (r: (
        RuntimeResolver,
        ResolveAction,
    ))
        requires
            index < needed@.len(),
        ensures
            (r.0@, r.1@) == after_probe(
                self@,
                requester@,
                crate::text::string_views(needed@),
                index as int,
                found@,
            ),
    {
        let ghost nv = crate::text::string_views(needed@);
        let len = needed.len();
        assert(index < len);
        let next = index + 1;
        let name = needed[index].clone();
        assert(nv[index as int] == name@);
        let (cands, n_ship) = self.candidates(&requester, &name);
        let ghost cv = crate::text::string_views(cands@);
        assert(cv.len() == cands@.len());
        if found.len() != cands.len() {
            return self.fail_with(ResolveError::OutOfTurn);
        }
        assert(n_ship <= cands@.len());
        let mut k: usize = 0;
        while k < n_ship && !found[k]
            invariant
                k <= n_ship <= found@.len(),
                forall|j: int| 0 <= j < k ==> !#[trigger] found@[j],
            decreases n_ship - k,
        {
            k = k + 1;
        }
        if k < n_ship {
            proof {
                lemma_first_found_at(found@, n_ship as int, k as int);
            }
            let src = cands[k].clone();
            assert(cv[k as int] == src@);
            let mut s = self;
            let ghost pv = crate::text::string_views(s.pending@);
            let ghost rv = crate::runtime::library_views(s.resolved@);
            s.pending.push(src.clone());
            s.resolved.push(RuntimeLibrary { source: src, soname: name });
            assert(crate::text::string_views(s.pending@) =~= pv.push(cv[k as int]));
            assert(crate::runtime::library_views(s.resolved@) =~= rv.push((cv[k as int], nv[index as int])));
            return s.next_soname_from(requester, needed, next);
        }
        proof {
            lemma_first_found_none(found@, n_ship as int);
        }
        let mut j: usize = n_ship;
        while j < found.len() && !found[j]
            invariant
                n_ship <= j <= found@.len(),
                forall|t: int| n_ship <= t < j ==> !#[trigger] found@[t],
            decreases found@.len() - j,
        {
            j = j + 1;
        }
        if j < found.len() {
            assert(found@[j as int]);
            self.next_soname_from(requester, needed, next)
        } else {
            self.fail_with(ResolveError::Unresolved { soname: name, requester })
        }
    }

    /// One transition: takes what the caller reported for the last action
    /// and gives the resolver that follows with what to do next.
    pub fn step(self, event: ResolveEvent) -> (r: (RuntimeResolver, ResolveAction))
        requires
            resolver_inv(self@),
        ensures
            (r.0@, r.1@) == on_event(self@, event@),
            resolver_inv(r.0@),
    {
        proof {
            lemma_transition_keeps_invariant(self@, event@);
        }
        let ghost m = self@;
        let mut s = self;
        let mut phase = Phase::Finished;
        std::mem::swap(&mut phase, &mut s.phase);
        assert(phase@ == m.phase);
        match phase {
            Phase::Identify(req) => match event {
                ResolveEvent::Identity(id) => {
                    let ident = match id {
                        Some(c) => c,
                        None => req.clone(),
                    };
                    if crate::search::contains_string(&s.scanned, &ident) {
                        s.phase = Phase::Identify(req);
                        assert(s@ == m);
                        s.pop_next()
                    } else {
                        let ghost sv = crate::text::string_views(s.scanned@);
                        let ghost iv = ident@;
                        s.scanned.push(ident);
                        assert(crate::text::string_views(s.scanned@) =~= sv.push(iv));
                        s.phase = Phase::ReadNeeded(req.clone());
                        (s, ResolveAction::ReadNeeded(req))
                    }
                },
                _ => s.fail_with(ResolveError::OutOfTurn),
            },
            Phase::ReadNeeded(req) => match event {
                ResolveEvent::Needed(Ok(out)) => match parse_needed_libraries(out.as_str()) {
                    Ok(needed) => {
                        s.phase = Phase::ReadNeeded(req.clone());
                        assert(s@ == m);
                        s.next_soname_from(req, needed, 0)
                    },
                    Err(_) => s.fail_with(ResolveError::Malformed { requester: req }),
                },
                ResolveEvent::Needed(Err(reason)) => s.fail_with(
                    ResolveError::ReadFailed { requester: req, reason },
                ),
                _ => s.fail_with(ResolveError::OutOfTurn),
            },
            Phase::Probe { requester, needed, index } => match event {
                ResolveEvent::Probed(found) => {
                    s.phase = Phase::Probe {
                        requester: requester.clone(),
                        needed: copy_strings(&needed),
                        index,
                    };
                    assert(s@ == m);
                    s.after_probe_exec(requester, needed, index, found)
                },
                _ => s.fail_with(ResolveError::OutOfTurn),
            },
            Phase::Finished => s.fail_with(ResolveError::OutOfTurn),
        }
    }
}

/// Starts resolving the runtime closure of `roots`, the files cargo
/// produced; only the shared objects among them are examined.  Each
/// `*_probes[i]` is what the file system reported for the `i`-th search
/// directory of its kind: its canonical form when it is a directory, else
/// `None`.  Gives the resolver with its first request.
pub fn resolve_runtime_libraries(
    roots: &Vec<String>,
    dependency_probes: &[Option<String>],
    runtime_probes: &[Option<String>],
    system_probes: &[Option<String>],
) -> (r: (RuntimeResolver, ResolveAction))
    ensures
        (r.0@, r.1@) == pop_pending(
            initial_model(
                crate::text::string_views(roots@),
                crate::search::option_views(dependency_probes@),
                crate::search::option_views(runtime_probes@),
                crate::search::option_views(system_probes@),
            ),
        ),
        resolver_inv(r.0@),
{
    let ghost rv = crate::text::string_views(roots@);
    let mut pending: Vec<String> = Vec::new();
    let mut i: usize = 0;
    while i < roots.len()
        invariant
            i <= roots@.len(),
            rv == crate::text::string_views(roots@),
            crate::text::string_views(pending@) == shared_objects(rv.subrange(0, i as int)),
        decreases roots@.len() - i,
    {
        proof {
            assert(rv.subrange(0, i + 1).drop_last() =~= rv.subrange(0, i as int));
            assert(rv.subrange(0, i + 1).last() == roots@[i as int]@);
        }
        if is_shared_object(roots[i].as_str()) {
            let ghost before = crate::text::string_views(pending@);
            pending.push(roots[i].clone());
            assert(crate::text::string_views(pending@) =~= before.push(roots@[i as int]@));
        }
        i = i + 1;
    }
    assert(rv.subrange(0, roots@.len() as int) =~= rv);
    let resolver = RuntimeResolver {
        roots: Ghost(shared_objects(rv)),
        deps: deduplicate_paths(dependency_probes),
        runtime: deduplicate_paths(runtime_probes),
        system: deduplicate_paths(system_probes),
        pending,
        scanned: Vec::new(),
        handled: Vec::new(),
        resolved: Vec::new(),
        phase: Phase::Finished,
    };
    proof {
        assert(crate::text::string_views(resolver.scanned@) =~= Seq::<Seq<char>>::empty());
        assert(crate::text::string_views(resolver.handled@) =~= Seq::<Seq<char>>::empty());
        assert(crate::runtime::library_views(resolver.resolved@) =~= Seq::<(Seq<char>, Seq<char>)>::empty());
        assert(resolver@ == initial_model(
            rv,
            crate::search::option_views(dependency_probes@),
            crate::search::option_views(runtime_probes@),
            crate::search::option_views(system_probes@),
        ));
        lemma_start_satisfies_invariant(
            rv,
            crate::search::option_views(dependency_probes@),
            crate::search::option_views(runtime_probes@),
            crate::search::option_views(system_probes@),
        );
    }
    resolver.pop_next()
}

/// The text by which a failed resolution is reported.
pub open spec fn error_message(e: ErrorModel) -> Seq<char> {
    match e {
        ErrorModel::ReadFailed(req, reason) => match reason {
            Some(text) => "Failed to inspect runtime dependencies for "@ + req + ": "@ + text,
            None => "Failed to inspect runtime dependencies for "@ + req,
        },
        ErrorModel::Malformed(req) => "Failed to parse runtime dependencies for "@ + req,
        ErrorModel::InvalidSoname(name) => "Invalid runtime library name reported by ELF: "@ + name,
        ErrorModel::Unresolved(name, req) => "Unable to resolve runtime library '"@ + name
            + "' required by "@ + req,
        ErrorModel::OutOfTurn => "Runtime library resolution was given a report it did not ask for"@,
    }
}

impl ResolveError {
    /// The text by which this failure is reported (see `error_message`).
    pub fn message(&self) -> (r: String)
        ensures
            r@ == error_message(self@),
    {
        match self {
            ResolveError::ReadFailed { requester, reason } => match reason {
                Some(text) => "Failed to inspect runtime dependencies for ".to_owned()
                    .concat(requester.as_str()).concat(": ").concat(text.as_str()),
                None => "Failed to inspect runtime dependencies for ".to_owned()
                    .concat(requester.as_str()),
            },
            ResolveError::Malformed { requester } => "Failed to parse runtime dependencies for ".to_owned()
                .concat(requester.as_str()),
            ResolveError::InvalidSoname { soname } => "Invalid runtime library name reported by ELF: ".to_owned()
                .concat(soname.as_str()),
            ResolveError::Unresolved { soname, requester } => "Unable to resolve runtime library '".to_owned()
                .concat(soname.as_str()).concat("' required by ").concat(requester.as_str()),
            ResolveError::OutOfTurn => "Runtime library resolution was given a report it did not ask for".to_owned(),
        }
    }
}

} // verus!

//! What a runtime-library resolution has been told and has decided, kept
//! beside its state, and the closure it reaches when it ends with a list.
//!
//! The ledger records, event by event, the files taken from the queue with
//! the identity reported for each, the needed-library lists read, and the
//! names left to the device because only a system directory had them.  The
//! laws below say that a resolution that ends with a list has examined every
//! root and every library it ships, ships only libraries that an examined
//! file needs, and ships or leaves to the device every library needed by an
//! examined file.

use vstd::prelude::*;
use crate::resolver::{ActionModel, EventModel, PhaseModel, ResolverModel};

verus! {

/// The record a resolution keeps of what it was told.
pub struct Ledger {
    /// Each file taken from the queue, with the identity reported for it.
    pub taken: Seq<(Seq<char>, Seq<char>)>,
    /// Each file whose needed libraries were read: its identity and the list.
    pub reads: Seq<(Seq<char>, Seq<Seq<char>>)>,
    /// The names left to the device: a system directory had them and no
    /// place they would be shipped from did.
    pub on_system: Seq<Seq<char>>,
}

/// The ledger of a resolution that has not been told anything yet.
pub open spec fn empty_ledger() -> Ledger {
    Ledger {
        taken: Seq::<(Seq<char>, Seq<char>)>::empty(),
        reads: Seq::<(Seq<char>, Seq<Seq<char>>)>::empty(),
        on_system: Seq::<Seq<char>>::empty(),
    }
}

/// The identity of `req` as reported: its canonical form, or `req` itself
/// when none could be had.
pub open spec fn identity_of(req: Seq<char>, id: Option<Seq<char>>) -> Seq<char> {
    match id {
        Some(c) => c,
        None => req,
    }
}

/// What the ledger records of `e` in state `m`.
pub open spec fn ledger_step(m: ResolverModel, l: Ledger, e: EventModel) -> Ledger {
    match m.phase {
        PhaseModel::Identify(req) => match e {
            EventModel::Identity(id) => Ledger { taken: l.taken.push((req, identity_of(req, id))), ..l },
            _ => l,
        },
        PhaseModel::ReadNeeded(_req) => match e {
            EventModel::Needed(Ok(out)) => if crate::needed::needed_section_complete(out) {
                Ledger {
                    reads: l.reads.push((m.scanned.last(), crate::needed::needed_libraries_of(out))),
                    ..l
                }
            } else {
                l
            },
            _ => l,
        },
        PhaseModel::Probe { requester, needed, index } => match e {
            EventModel::Probed(found) => {
                let name = needed[index];
                let n_ship = crate::resolver::shipped_candidates(m, requester, name).len() as int;
                if found.len() == crate::resolver::probe_candidates(m, requester, name).len()
                    && crate::resolver::first_found(found, n_ship) is None
                    && crate::resolver::found_from(found, n_ship) {
                    Ledger { on_system: l.on_system.push(name), ..l }
                } else {
                    l
                }
            },
            _ => l,
        },
        PhaseModel::Finished => l,
    }
}

/// Whether `list` ships a library named `name`.
pub open spec fn ships(list: Seq<(Seq<char>, Seq<char>)>, name: Seq<char>) -> bool {
    exists|i: int| 0 <= i < list.len() && (#[trigger] list[i]).1 == name
}

/// Whether the file `p` was taken from the queue.
pub open spec fn was_taken(l: Ledger, p: Seq<char>) -> bool {
    exists|t: int| 0 <= t < l.taken.len() && (#[trigger] l.taken[t]).0 == p
}

/// Whether the needed libraries of the file with identity `ident` were read.
pub open spec fn was_read(l: Ledger, ident: Seq<char>) -> bool {
    exists|r: int| 0 <= r < l.reads.len() && (#[trigger] l.reads[r]).0 == ident
}

/// Whether `name` is listed among the needed libraries of a file read.
pub open spec fn needed_by_read(l: Ledger, name: Seq<char>) -> bool {
    exists|r: int, k: int| 0 <= r < l.reads.len() && 0 <= k < l.reads[r].1.len() && #[trigger] l.reads[r].1[k] == name
}

/// Every library shipped so far is needed by a file read.
pub open spec fn shipped_were_needed(list: Seq<(Seq<char>, Seq<char>)>, l: Ledger) -> bool {
    forall|i: int| 0 <= i < list.len() ==> needed_by_read(l, (#[trigger] list[i]).1)
}

/// Whether the file `p` was examined: taken from the queue, and the needed
/// libraries of its identity read.
pub open spec fn examined(l: Ledger, p: Seq<char>) -> bool {
    exists|t: int| 0 <= t < l.taken.len() && (#[trigger] l.taken[t]).0 == p && was_read(l, l.taken[t].1)
}

/// The closure a resolution that ends with `list` reaches: every root and
/// every library shipped was examined, every library shipped is needed by
/// a file examined, and every library that an examined file needs is
/// shipped or was left to the device.
pub open spec fn closed(m: ResolverModel, l: Ledger, list: Seq<(Seq<char>, Seq<char>)>) -> bool {
    &&& shipped_were_needed(list, l)
    &&& forall|p: Seq<char>| #[trigger] m.roots.contains(p) ==> examined(l, p)
    &&& forall|i: int| 0 <= i < list.len() ==> examined(l, (#[trigger] list[i]).0)
    &&& forall|r: int, k: int|
        0 <= r < l.reads.len() && 0 <= k < l.reads[r].1.len() ==> ships(list, #[trigger] l.reads[r].1[k])
            || l.on_system.contains(l.reads[r].1[k])
}

/// Whether `n` is the name being probed in `m`.
pub open spec fn probing(m: ResolverModel, n: Seq<char>) -> bool {
    match m.phase {
        PhaseModel::Probe { needed, index, .. } => n == needed[index],
        _ => false,
    }
}

/// Every name dealt with is shipped or left to the device, but the one
/// being probed.
pub open spec fn names_accounted(m: ResolverModel, l: Ledger) -> bool {
    forall|n: Seq<char>| #[trigger] m.handled.contains(n) ==> ships(m.resolved, n) || l.on_system.contains(n)
        || probing(m, n)
}

/// Every name of the reads below `upto` has been dealt with.
pub open spec fn reads_handled(m: ResolverModel, l: Ledger, upto: int) -> bool {
    forall|r: int, k: int|
        0 <= r < upto && 0 <= k < l.reads[r].1.len() ==> m.handled.contains(#[trigger] l.reads[r].1[k])
}

/// Every root and every library shipped is queued, was taken, or is the
/// file being identified.
pub open spec fn queue_covered(m: ResolverModel, l: Ledger) -> bool {
    &&& forall|p: Seq<char>| #[trigger] m.roots.contains(p) ==> m.pending.contains(p) || was_taken(l, p)
        || m.phase == PhaseModel::Identify(p)
    &&& forall|i: int|
        0 <= i < m.resolved.len() ==> m.pending.contains((#[trigger] m.resolved[i]).0) || was_taken(
            l,
            m.resolved[i].0,
        ) || m.phase == PhaseModel::Identify(m.resolved[i].0)
}

/// Every identity reported was examined, and every file examined had its
/// needed libraries read, but the one being read.
pub open spec fn identities_read(m: ResolverModel, l: Ledger) -> bool {
    &&& forall|t: int| 0 <= t < l.taken.len() ==> m.scanned.contains((#[trigger] l.taken[t]).1)
    &&& forall|s: Seq<char>| #[trigger] m.scanned.contains(s) ==> was_read(l, s) || (m.phase is ReadNeeded
        && m.scanned.len() > 0 && s == m.scanned.last())
}

/// How the ledger stands to the state while a resolution goes on.
pub open spec fn ledger_inv(m: ResolverModel, l: Ledger) -> bool {
    match m.phase {
        PhaseModel::Finished => true,
        PhaseModel::Probe { needed, index, .. } => {
            &&& names_accounted(m, l)
            &&& l.reads.len() > 0
            &&& l.reads.last().1 == needed
            &&& reads_handled(m, l, l.reads.len() - 1)
            &&& forall|k: int| 0 <= k <= index ==> m.handled.contains(#[trigger] needed[k])
            &&& queue_covered(m, l)
            &&& identities_read(m, l)
            &&& shipped_were_needed(m.resolved, l)
        },
        _ => {
            &&& names_accounted(m, l)
            &&& reads_handled(m, l, l.reads.len() as int)
            &&& queue_covered(m, l)
            &&& identities_read(m, l)
            &&& (m.phase is ReadNeeded ==> m.scanned.len() > 0)
            &&& shipped_were_needed(m.resolved, l)
        },
    }
}

/// How the ledger stands to a state whose next file is about to be taken.
spec fn ready(m: ResolverModel, l: Ledger) -> bool {
    &&& shipped_were_needed(m.resolved, l)
    &&& forall|n: Seq<char>| #[trigger] m.handled.contains(n) ==> ships(m.resolved, n) || l.on_system.contains(n)
    &&& reads_handled(m, l, l.reads.len() as int)
    &&& forall|p: Seq<char>| #[trigger] m.roots.contains(p) ==> m.pending.contains(p) || was_taken(l, p)
    &&& forall|i: int|
        0 <= i < m.resolved.len() ==> m.pending.contains((#[trigger] m.resolved[i]).0) || was_taken(
            l,
            m.resolved[i].0,
        )
    &&& forall|t: int| 0 <= t < l.taken.len() ==> m.scanned.contains((#[trigger] l.taken[t]).1)
    &&& forall|s: Seq<char>| #[trigger] m.scanned.contains(s) ==> was_read(l, s)
}

/// How the ledger stands to a state going through the list `needed` of the
/// last read, at position `i`.
spec fn reading(m: ResolverModel, l: Ledger, needed: Seq<Seq<char>>, i: int) -> bool {
    &&& shipped_were_needed(m.resolved, l)
    &&& forall|n: Seq<char>| #[trigger] m.handled.contains(n) ==> ships(m.resolved, n) || l.on_system.contains(n)
    &&& l.reads.len() > 0
    &&& l.reads.last().1 == needed
    &&& reads_handled(m, l, l.reads.len() - 1)
    &&& forall|k: int| 0 <= k < i && k < needed.len() ==> m.handled.contains(#[trigger] needed[k])
    &&& forall|p: Seq<char>| #[trigger] m.roots.contains(p) ==> m.pending.contains(p) || was_taken(l, p)
    &&& forall|j: int|
        0 <= j < m.resolved.len() ==> m.pending.contains((#[trigger] m.resolved[j]).0) || was_taken(
            l,
            m.resolved[j].0,
        )
    &&& forall|t: int| 0 <= t < l.taken.len() ==> m.scanned.contains((#[trigger] l.taken[t]).1)
    &&& forall|s: Seq<char>| #[trigger] m.scanned.contains(s) ==> was_read(l, s)
}

proof fn lemma_pop_ready(m: ResolverModel, l: Ledger)
    requires
        ready(m, l),
    ensures
        ledger_inv(crate::resolver::pop_pending(m).0, l),
        crate::resolver::pop_pending(m).1 matches ActionModel::Done(list) ==> closed(
            crate::resolver::pop_pending(m).0,
            l,
            list,
        ),
{
    let (m2, a) = crate::resolver::pop_pending(m);
    if m.pending.len() == 0 {
        assert forall|p: Seq<char>| #[trigger] m2.roots.contains(p) implies examined(l, p) by {
            assert(!m.pending.contains(p));
            let t = choose|t: int| 0 <= t < l.taken.len() && (#[trigger] l.taken[t]).0 == p;
            assert(m.scanned.contains(l.taken[t].1));
        }
        assert forall|i: int| 0 <= i < m.resolved.len() implies examined(l, (#[trigger] m.resolved[i]).0) by {
            assert(!m.pending.contains(m.resolved[i].0));
            let t = choose|t: int| 0 <= t < l.taken.len() && (#[trigger] l.taken[t]).0 == m.resolved[i].0;
            assert(m.scanned.contains(l.taken[t].1));
        }
    } else {
        let head = m.pending[0];
        assert forall|p: Seq<char>| #[trigger] m2.roots.contains(p) implies m2.pending.contains(p)
            || was_taken(l, p) || m2.phase == PhaseModel::Identify(p) by {
            if m.pending.contains(p) && p != head {
                let k = choose|k: int| 0 <= k < m.pending.len() && m.pending[k] == p;
                assert(m2.pending[k - 1] == p);
            }
        }
        assert forall|i: int| 0 <= i < m2.resolved.len() implies m2.pending.contains(
            (#[trigger] m2.resolved[i]).0,
        ) || was_taken(l, m2.resolved[i].0) || m2.phase == PhaseModel::Identify(m2.resolved[i].0) by {
            let p = m.resolved[i].0;
            if m.pending.contains(p) && p != head {
                let k = choose|k: int| 0 <= k < m.pending.len() && m.pending[k] == p;
                assert(m2.pending[k - 1] == p);
            }
        }
    }
}

proof fn lemma_reads_grow(l: Ledger, l2: Ledger, x: (Seq<char>, Seq<Seq<char>>), list: Seq<(Seq<char>, Seq<char>)>)
    requires
        l2.reads == l.reads.push(x),
        shipped_were_needed(list, l),
    ensures
        shipped_were_needed(list, l2),
{
    assert forall|i: int| 0 <= i < list.len() implies needed_by_read(l2, (#[trigger] list[i]).1) by {
        let (r, k) = choose|r: int, k: int|
            0 <= r < l.reads.len() && 0 <= k < l.reads[r].1.len() && #[trigger] l.reads[r].1[k] == list[i].1;
        assert(l2.reads[r] == l.reads[r]);
        assert(l2.reads[r].1[k] == list[i].1);
    }
}

proof fn lemma_push_keeps_contains(s: Seq<Seq<char>>, x: Seq<char>, y: Seq<char>)
    requires
        s.contains(y),
    ensures
        s.push(x).contains(y),
{
    let k = choose|k: int| 0 <= k < s.len() && s[k] == y;
    assert(s.push(x)[k] == y);
}

proof fn lemma_reading(m: ResolverModel, l: Ledger, requester: Seq<char>, needed: Seq<Seq<char>>, i: int)
    requires
        i >= 0,
        reading(m, l, needed, i),
    ensures
        ledger_inv(crate::resolver::next_soname(m, requester, needed, i).0, l),
        crate::resolver::next_soname(m, requester, needed, i).1 matches ActionModel::Done(list) ==> closed(
            crate::resolver::next_soname(m, requester, needed, i).0,
            l,
            list,
        ),
    decreases needed.len() - i,
{
    if i >= needed.len() {
        assert forall|r: int, k: int|
            0 <= r < l.reads.len() && 0 <= k < l.reads[r].1.len() implies m.handled.contains(
            #[trigger] l.reads[r].1[k],
        ) by {
            if r == l.reads.len() - 1 {
                assert(l.reads[r].1 == needed);
                assert(m.handled.contains(needed[k]));
            }
        }
        lemma_pop_ready(m, l);
    } else if m.handled.contains(needed[i]) {
        lemma_reading(m, l, requester, needed, i + 1);
    } else {
        let name = needed[i];
        let m2 = ResolverModel { handled: m.handled.push(name), ..m };
        if crate::runtime::is_bare_file_name(name) {
            let m3 = ResolverModel {
                phase: PhaseModel::Probe { requester, needed, index: i },
                ..m2
            };
            assert(m2.handled[m.handled.len() as int] == name);
            assert forall|n: Seq<char>| #[trigger] m3.handled.contains(n) implies ships(m3.resolved, n)
                || l.on_system.contains(n) || probing(m3, n) by {
                if n != name {
                    let k = choose|k: int| 0 <= k < m3.handled.len() && m3.handled[k] == n;
                    assert(k < m.handled.len());
                    assert(m.handled[k] == n);
                    assert(m.handled.contains(n));
                }
            }
            assert forall|r: int, k: int|
                0 <= r < l.reads.len() - 1 && 0 <= k < l.reads[r].1.len() implies m3.handled.contains(
                #[trigger] l.reads[r].1[k],
            ) by {
                lemma_push_keeps_contains(m.handled, name, l.reads[r].1[k]);
            }
            assert forall|k: int| 0 <= k <= i implies m3.handled.contains(#[trigger] needed[k]) by {
                if k < i {
                    lemma_push_keeps_contains(m.handled, name, needed[k]);
                }
            }
        }
    }
}

/// The first state of a resolution stands in order to an empty ledger, and
/// a resolution that ends at once (no shared object to start from) ends
/// closed.
pub proof fn lemma_ledger_at_start(
    roots: Seq<Seq<char>>,
    deps: Seq<Option<Seq<char>>>,
    runtime: Seq<Option<Seq<char>>>,
    system: Seq<Option<Seq<char>>>,
)
    ensures
        ledger_inv(
            crate::resolver::pop_pending(crate::resolver::initial_model(roots, deps, runtime, system)).0,
            empty_ledger(),
        ),
        crate::resolver::pop_pending(crate::resolver::initial_model(roots, deps, runtime, system)).1 matches ActionModel::Done(
            list,
        ) ==> closed(
            crate::resolver::pop_pending(crate::resolver::initial_model(roots, deps, runtime, system)).0,
            empty_ledger(),
            list,
        ),
{
    let m = crate::resolver::initial_model(roots, deps, runtime, system);
    lemma_pop_ready(m, empty_ledger());
}

/// The runtime closure: whatever the caller reports, each transition keeps
/// the ledger in order with the state, and a resolution that ends with a
/// list of libraries has examined every root and every library it ships,
/// ships only libraries that an examined file needs, and ships or leaves
/// to the device every library that an examined file needs.
pub proof fn lemma_ledger_step(m: ResolverModel, l: Ledger, e: EventModel)
    requires
        crate::resolver::resolver_inv(m),
        ledger_inv(m, l),
    ensures
        ledger_inv(crate::resolver::on_event(m, e).0, ledger_step(m, l, e)),
        crate::resolver::on_event(m, e).1 matches ActionModel::Done(list) ==> closed(
            crate::resolver::on_event(m, e).0,
            ledger_step(m, l, e),
            list,
        ),
{
    let l2 = ledger_step(m, l, e);
    match m.phase {
        PhaseModel::Identify(req) => match e {
            EventModel::Identity(id) => {
                let ident = identity_of(req, id);
                let t_new = l.taken.len() as int;
                assert(l2.taken[t_new] == (req, ident));
                assert(was_taken(l2, req));
                assert forall|t: int| 0 <= t < l.taken.len() implies (#[trigger] l2.taken[t]) == l.taken[t] by {}
                assert forall|p: Seq<char>| was_taken(l, p) implies was_taken(l2, p) by {
                    let t = choose|t: int| 0 <= t < l.taken.len() && (#[trigger] l.taken[t]).0 == p;
                    assert(l2.taken[t] == l.taken[t]);
                }
                if m.scanned.contains(ident) {
                    assert forall|p: Seq<char>| #[trigger] m.roots.contains(p) implies m.pending.contains(p)
                        || was_taken(l2, p) by {}
                    assert forall|i: int| 0 <= i < m.resolved.len() implies m.pending.contains(
                        (#[trigger] m.resolved[i]).0,
                    ) || was_taken(l2, m.resolved[i].0) by {}
                    assert forall|t: int| 0 <= t < l2.taken.len() implies m.scanned.contains(
                        (#[trigger] l2.taken[t]).1,
                    ) by {}
                    assert forall|n: Seq<char>| #[trigger] m.handled.contains(n) implies ships(m.resolved, n)
                        || l2.on_system.contains(n) by {
                        assert(!probing(m, n));
                    }
                    lemma_pop_ready(m, l2);
                } else {
                    let m2 = crate::resolver::on_event(m, e).0;
                    assert(m2.scanned == m.scanned.push(ident));
                    assert(m2.scanned.last() == ident);
                    assert forall|t: int| 0 <= t < l2.taken.len() implies m2.scanned.contains(
                        (#[trigger] l2.taken[t]).1,
                    ) by {
                        if t < l.taken.len() {
                            lemma_push_keeps_contains(m.scanned, ident, l.taken[t].1);
                        } else {
                            assert(m2.scanned[m.scanned.len() as int] == ident);
                        }
                    }
                    assert forall|s: Seq<char>| #[trigger] m2.scanned.contains(s) implies was_read(l2, s) || (
                    m2.phase is ReadNeeded && m2.scanned.len() > 0 && s == m2.scanned.last()) by {
                        if s != ident {
                            let k = choose|k: int| 0 <= k < m2.scanned.len() && m2.scanned[k] == s;
                            assert(k < m.scanned.len());
                            assert(m.scanned[k] == s);
                            assert(m.scanned.contains(s));
                            assert(was_read(l, s));
                            let r = choose|r: int| 0 <= r < l.reads.len() && (#[trigger] l.reads[r]).0 == s;
                            assert(l2.reads[r] == l.reads[r]);
                        }
                    }
                    assert forall|n: Seq<char>| #[trigger] m2.handled.contains(n) implies ships(m2.resolved, n)
                        || l2.on_system.contains(n) || probing(m2, n) by {
                        assert(!probing(m, n));
                    }
                }
            },
            _ => {},
        },
        PhaseModel::ReadNeeded(req) => match e {
            EventModel::Needed(Ok(out)) => {
                if crate::needed::needed_section_complete(out) {
                    let needed = crate::needed::needed_libraries_of(out);
                    let r_new = l.reads.len() as int;
                    assert(l2.reads[r_new] == (m.scanned.last(), needed));
                    assert forall|r: int| 0 <= r < l.reads.len() implies (#[trigger] l2.reads[r]) == l.reads[r] by {}
                    assert forall|s: Seq<char>| #[trigger] m.scanned.contains(s) implies was_read(l2, s) by {
                        if s != m.scanned.last() {
                            let r = choose|r: int| 0 <= r < l.reads.len() && (#[trigger] l.reads[r]).0 == s;
                            assert(l2.reads[r] == l.reads[r]);
                        }
                    }
                    assert forall|n: Seq<char>| #[trigger] m.handled.contains(n) implies ships(m.resolved, n)
                        || l2.on_system.contains(n) by {
                        assert(!probing(m, n));
                    }
                    assert forall|r: int, k: int|
                        0 <= r < l2.reads.len() - 1 && 0 <= k < l2.reads[r].1.len() implies m.handled.contains(
                        #[trigger] l2.reads[r].1[k],
                    ) by {
                        assert(l2.reads[r] == l.reads[r]);
                    }
                    assert(l2.taken == l.taken);
                    assert forall|p: Seq<char>| #[trigger] m.roots.contains(p) implies m.pending.contains(p)
                        || was_taken(l2, p) by {}
                    assert forall|j: int| 0 <= j < m.resolved.len() implies m.pending.contains(
                        (#[trigger] m.resolved[j]).0,
                    ) || was_taken(l2, m.resolved[j].0) by {}
                    assert forall|t: int| 0 <= t < l2.taken.len() implies m.scanned.contains(
                        (#[trigger] l2.taken[t]).1,
                    ) by {}
                    assert(l2.reads.last().1 == needed);
                    lemma_reads_grow(l, l2, (m.scanned.last(), needed), m.resolved);
                    lemma_reading(m, l2, req, needed, 0);
                }
            },
            _ => {},
        },
        PhaseModel::Probe { requester, needed, index } => match e {
            EventModel::Probed(found) => {
                let name = needed[index];
                let cands = crate::resolver::probe_candidates(m, requester, name);
                let n_ship = crate::resolver::shipped_candidates(m, requester, name).len() as int;
                if found.len() == cands.len() {
                    match crate::resolver::first_found(found, n_ship) {
                        Some(k) => {
                            let src = cands[k];
                            let m2 = ResolverModel {
                                pending: m.pending.push(src),
                                resolved: m.resolved.push((src, name)),
                                ..m
                            };
                            let n = m.resolved.len() as int;
                            assert(m2.resolved[n] == (src, name));
                            assert(m2.pending[m.pending.len() as int] == src);
                            assert forall|x: Seq<char>| #[trigger] m2.handled.contains(x) implies ships(
                                m2.resolved,
                                x,
                            ) || l2.on_system.contains(x) by {
                                if x != name {
                                    if ships(m.resolved, x) {
                                        let j = choose|j: int| 0 <= j < m.resolved.len() && (
                                        #[trigger] m.resolved[j]).1 == x;
                                        assert(m2.resolved[j] == m.resolved[j]);
                                    }
                                }
                            }
                            assert forall|p: Seq<char>| #[trigger] m2.roots.contains(p) implies m2.pending.contains(
                                p,
                            ) || was_taken(l2, p) by {
                                if m.pending.contains(p) {
                                    lemma_push_keeps_contains(m.pending, src, p);
                                }
                            }
                            assert forall|j: int| 0 <= j < m2.resolved.len() implies m2.pending.contains(
                                (#[trigger] m2.resolved[j]).0,
                            ) || was_taken(l2, m2.resolved[j].0) by {
                                if j < n {
                                    assert(m2.resolved[j] == m.resolved[j]);
                                    if m.pending.contains(m.resolved[j].0) {
                                        lemma_push_keeps_contains(m.pending, src, m.resolved[j].0);
                                    }
                                }
                            }
                            assert(l2 == l);
                            let last = l.reads.len() - 1;
                            assert(l.reads[last].1[index] == name);
                            assert forall|j: int| 0 <= j < m2.resolved.len() implies needed_by_read(
                                l2,
                                (#[trigger] m2.resolved[j]).1,
                            ) by {
                                if j < n {
                                    assert(m2.resolved[j] == m.resolved[j]);
                                } else {
                                    assert(l.reads[last].1[index] == m2.resolved[j].1);
                                }
                            }
                            lemma_reading(m2, l2, requester, needed, index + 1);
                        },
                        None => {
                            if crate::resolver::found_from(found, n_ship) {
                                assert(l2.on_system == l.on_system.push(name));
                                assert(l2.on_system[l.on_system.len() as int] == name);
                                assert forall|x: Seq<char>| #[trigger] m.handled.contains(x) implies ships(
                                    m.resolved,
                                    x,
                                ) || l2.on_system.contains(x) by {
                                    if x != name && l.on_system.contains(x) {
                                        lemma_push_keeps_contains(l.on_system, name, x);
                                    }
                                }
                                assert(l2.taken == l.taken && l2.reads == l.reads);
                                assert forall|p: Seq<char>| #[trigger] m.roots.contains(p) implies m.pending.contains(
                                    p,
                                ) || was_taken(l2, p) by {}
                                assert forall|j: int| 0 <= j < m.resolved.len() implies m.pending.contains(
                                    (#[trigger] m.resolved[j]).0,
                                ) || was_taken(l2, m.resolved[j].0) by {}
                                assert forall|s: Seq<char>| #[trigger] m.scanned.contains(s) implies was_read(l2, s) by {}
                                assert forall|k: int| 0 <= k < index + 1 && k < needed.len() implies m.handled.contains(
                                    #[trigger] needed[k],
                                ) by {}
                                lemma_reading(m, l2, requester, needed, index + 1);
                            }
                        },
                    }
                }
            },
            _ => {},
        },
        PhaseModel::Finished => {},
    }
}

/// The state, ledger and last action after `events`, from `m`, `l` and `a`.
pub open spec fn replay(m: ResolverModel, l: Ledger, a: ActionModel, events: Seq<EventModel>) -> (
    ResolverModel,
    Ledger,
    ActionModel,
)
    decreases events.len(),
{
    if events.len() == 0 {
        (m, l, a)
    } else {
        let next = crate::resolver::on_event(m, events[0]);
        replay(next.0, ledger_step(m, l, events[0]), next.1, events.drop_first())
    }
}

proof fn lemma_replay_closed(m: ResolverModel, l: Ledger, a: ActionModel, events: Seq<EventModel>)
    requires
        crate::resolver::resolver_inv(m),
        ledger_inv(m, l),
        a matches ActionModel::Done(list) ==> closed(m, l, list),
    ensures
        replay(m, l, a, events).2 matches ActionModel::Done(list) ==> closed(
            replay(m, l, a, events).0,
            replay(m, l, a, events).1,
            list,
        ),
    decreases events.len(),
{
    if events.len() > 0 {
        crate::resolver::lemma_transition_keeps_invariant(m, events[0]);
        lemma_ledger_step(m, l, events[0]);
        let next = crate::resolver::on_event(m, events[0]);
        lemma_replay_closed(next.0, ledger_step(m, l, events[0]), next.1, events.drop_first());
    }
}

/// A whole resolution is closed: whatever the caller reports, from the
/// first state on, a resolution that ends with a list of libraries has
/// examined every root and every library it ships, ships only libraries
/// that an examined file needs, and ships or leaves to the device every
/// library that an examined file needs.
pub proof fn lemma_resolution_is_closed(
    roots: Seq<Seq<char>>,
    deps: Seq<Option<Seq<char>>>,
    runtime: Seq<Option<Seq<char>>>,
    system: Seq<Option<Seq<char>>>,
    events: Seq<EventModel>,
)
    ensures
        ({
            let start = crate::resolver::pop_pending(crate::resolver::initial_model(roots, deps, runtime, system));
            let end = replay(start.0, empty_ledger(), start.1, events);
            end.2 matches ActionModel::Done(list) ==> closed(end.0, end.1, list)
        }),
{
    let start = crate::resolver::pop_pending(crate::resolver::initial_model(roots, deps, runtime, system));
    crate::resolver::lemma_start_satisfies_invariant(roots, deps, runtime, system);
    lemma_ledger_at_start(roots, deps, runtime, system);
    lemma_replay_closed(start.0, empty_ledger(), start.1, events);
}

} // verus!

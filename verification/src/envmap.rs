//! A set of environment variables for a child process: names bound to
//! values, each name once, kept in the order they were first set.

use vstd::prelude::*;

verus! {

broadcast use vstd::string::group_string_axioms;

/// The views of a sequence of string pairs.
pub open spec fn pairs_view(v: Seq<(String, String)>) -> Seq<(Seq<char>, Seq<char>)> {
    v.map_values(|p: (String, String)| (p.0@, p.1@))
}

/// No name occurs twice.
pub open spec fn keys_unique(s: Seq<(Seq<char>, Seq<char>)>) -> bool {
    forall|i: int, j: int| 0 <= i < j < s.len() ==> (#[trigger] s[i]).0 != (#[trigger] s[j]).0
}

/// The bindings that setting each pair of `s` in turn leaves: a later pair
/// overrides an earlier one with the same name.
pub open spec fn pairs_map(s: Seq<(Seq<char>, Seq<char>)>) -> Map<Seq<char>, Seq<char>>
    decreases s.len(),
{
    if s.len() == 0 {
        Map::<Seq<char>, Seq<char>>::empty()
    } else {
        pairs_map(s.drop_last()).insert(s.last().0, s.last().1)
    }
}

/// With no name twice, a name is bound exactly when some pair has it, and
/// it is bound to that pair's value.
pub proof fn lemma_pairs_map(s: Seq<(Seq<char>, Seq<char>)>)
    requires
        keys_unique(s),
    ensures
        forall|k: Seq<char>|
            #![trigger pairs_map(s).contains_key(k)]
            pairs_map(s).contains_key(k) <==> exists|i: int| 0 <= i < s.len() && (#[trigger] s[i]).0 == k,
        forall|i: int| 0 <= i < s.len() ==> pairs_map(s)[(#[trigger] s[i]).0] == s[i].1,
    decreases s.len(),
{
    if s.len() > 0 {
        let p = s.drop_last();
        assert forall|i: int, j: int| 0 <= i < j < p.len() implies (#[trigger] p[i]).0 != (
        #[trigger] p[j]).0 by {
            assert(p[i] == s[i] && p[j] == s[j]);
        }
        lemma_pairs_map(p);
        let n = s.len() - 1;
        assert forall|k: Seq<char>| #![trigger pairs_map(s).contains_key(k)] pairs_map(s).contains_key(
            k,
        ) <==> exists|i: int| 0 <= i < s.len() && (#[trigger] s[i]).0 == k by {
            if pairs_map(s).contains_key(k) && k != s.last().0 {
                assert(pairs_map(p).contains_key(k));
                let i = choose|i: int| 0 <= i < p.len() && (#[trigger] p[i]).0 == k;
                assert(s[i] == p[i]);
            }
            if k == s.last().0 {
                assert(s[n].0 == k);
            }
            if exists|i: int| 0 <= i < s.len() && (#[trigger] s[i]).0 == k {
                let i = choose|i: int| 0 <= i < s.len() && (#[trigger] s[i]).0 == k;
                if i < n {
                    assert(p[i] == s[i]);
                }
            }
        }
        assert forall|i: int| 0 <= i < s.len() implies pairs_map(s)[(#[trigger] s[i]).0] == s[i].1 by {
            if i < n {
                assert(p[i] == s[i]);
                assert(s[i].0 != s[n].0);
            }
        }
    }
}

/// Environment variables for a child process.
pub struct EnvMap {
    entries: Vec<(String, String)>,
}

impl View for EnvMap {
    type V = Map<Seq<char>, Seq<char>>;

    closed spec fn view(&self) -> Map<Seq<char>, Seq<char>> {
        pairs_map(pairs_view(self.entries@))
    }
}

impl EnvMap {
    /// Whether no name occurs twice.
    pub closed spec fn wf(&self) -> bool {
        keys_unique(pairs_view(self.entries@))
    }

    /// No variables.
    pub fn new() -> (r: EnvMap)
        ensures
            r.wf(),
            r@ == Map::<Seq<char>, Seq<char>>::empty(),
    {
        let r = EnvMap { entries: Vec::new() };
        assert(pairs_view(r.entries@) =~= Seq::<(Seq<char>, Seq<char>)>::empty());
        r
    }

    fn find(&self, key: &str) -> (r: Option<usize>)
        requires
            self.wf(),
        ensures
            match r {
                Some(i) => i < self.entries@.len() && self.entries@[i as int].0@ == key@,
                None => forall|i: int| 0 <= i < self.entries@.len() ==> (#[trigger] self.entries@[i]).0@ != key@,
            },
    {
        let wanted = key.to_owned();
        let mut i: usize = 0;
        while i < self.entries.len()
            invariant
                i <= self.entries@.len(),
                wanted@ == key@,
                forall|j: int| 0 <= j < i ==> (#[trigger] self.entries@[j]).0@ != key@,
            decreases self.entries@.len() - i,
        {
            if self.entries[i].0 == wanted {
                return Some(i);
            }
            i = i + 1;
        }
        None
    }

    /// The value bound to `key`, if any.
    pub fn get(&self, key: &str) -> (r: Option<String>)
        requires
            self.wf(),
        ensures
            match r {
                Some(v) => self@.contains_key(key@) && self@[key@] == v@,
                None => !self@.contains_key(key@),
            },
    {
        let ghost s = pairs_view(self.entries@);
        proof {
            lemma_pairs_map(s);
        }
        match self.find(key) {
            Some(i) => {
                assert(s[i as int].0 == key@);
                Some(self.entries[i].1.clone())
            },
            None => {
                assert forall|j: int| 0 <= j < s.len() implies (#[trigger] s[j]).0 != key@ by {
                    assert(s[j].0 == self.entries@[j].0@);
                }
                None
            },
        }
    }

    /// Binds `key` to `value`, replacing what it was bound to.
    pub fn insert(&mut self, key: String, value: String)
        requires
            old(self).wf(),
        ensures
            final(self).wf(),
            final(self)@ == old(self)@.insert(key@, value@),
    {
        let ghost s = pairs_view(self.entries@);
        let ghost k = key@;
        let ghost v = value@;
        proof {
            lemma_pairs_map(s);
        }
        match self.find(key.as_str()) {
            Some(i) => {
                self.entries.set(i, (key, value));
                let ghost t = pairs_view(self.entries@);
                assert(t =~= s.update(i as int, (k, v)));
                assert forall|a: int, b: int| 0 <= a < b < t.len() implies (#[trigger] t[a]).0 != (
                #[trigger] t[b]).0 by {
                    assert(t[a].0 == s[a].0 && t[b].0 == s[b].0);
                }
                proof {
                    lemma_pairs_map(t);
                    assert forall|x: Seq<char>| #[trigger] pairs_map(t).contains_key(x)
                        <==> pairs_map(s).insert(k, v).contains_key(x) by {
                        if pairs_map(t).contains_key(x) {
                            let j = choose|j: int| 0 <= j < t.len() && (#[trigger] t[j]).0 == x;
                            assert(s[j].0 == x);
                        }
                        if pairs_map(s).contains_key(x) {
                            let j = choose|j: int| 0 <= j < s.len() && (#[trigger] s[j]).0 == x;
                            assert(t[j].0 == x);
                        }
                        if x == k {
                            assert(t[i as int].0 == x);
                        }
                    }
                    assert forall|x: Seq<char>| #[trigger] pairs_map(t).contains_key(x) implies pairs_map(
                        t,
                    )[x] == pairs_map(s).insert(k, v)[x] by {
                        let j = choose|j: int| 0 <= j < t.len() && (#[trigger] t[j]).0 == x;
                        assert(pairs_map(t)[t[j].0] == t[j].1);
                        assert(t[i as int].0 == k);
                        if j != i {
                            assert(t[j] == s[j]);
                            assert(pairs_map(s)[s[j].0] == s[j].1);
                            assert(x != k);
                        } else {
                            assert(x == k);
                        }
                    }
                    assert(pairs_map(t) =~= pairs_map(s).insert(k, v));
                }
            },
            None => {
                self.entries.push((key, value));
                let ghost t = pairs_view(self.entries@);
                assert(t =~= s.push((k, v)));
                assert(t.drop_last() =~= s);
                assert forall|a: int, b: int| 0 <= a < b < t.len() implies (#[trigger] t[a]).0 != (
                #[trigger] t[b]).0 by {
                    assert(t[a] == s[a] || a == s.len());
                    if b < s.len() {
                        assert(t[a] == s[a] && t[b] == s[b]);
                    } else {
                        assert(t[a] == s[a]);
                        assert(s[a].0 == old(self).entries@[a].0@);
                    }
                }
            },
        }
    }

    /// The variables of `pairs`, set in turn: a later pair overrides an
    /// earlier one with the same name.
    pub fn from_pairs(pairs: Vec<(String, String)>) -> (r: EnvMap)
        ensures
            r.wf(),
            r@ == pairs_map(pairs_view(pairs@)),
    {
        let mut m = EnvMap::new();
        let ghost pv = pairs_view(pairs@);
        let mut i: usize = 0;
        while i < pairs.len()
            invariant
                i <= pairs@.len(),
                pv == pairs_view(pairs@),
                m.wf(),
                m@ == pairs_map(pv.subrange(0, i as int)),
            decreases pairs@.len() - i,
        {
            let (k, v) = (pairs[i].0.clone(), pairs[i].1.clone());
            m.insert(k, v);
            assert(pv.subrange(0, i + 1).drop_last() =~= pv.subrange(0, i as int));
            i = i + 1;
        }
        assert(pv.subrange(0, pairs@.len() as int) =~= pv);
        m
    }

    /// The bindings as pairs, each name once.
    pub fn to_pairs(&self) -> (r: Vec<(String, String)>)
        requires
            self.wf(),
        ensures
            keys_unique(pairs_view(r@)),
            pairs_map(pairs_view(r@)) == self@,
    {
        let mut out: Vec<(String, String)> = Vec::new();
        let mut i: usize = 0;
        while i < self.entries.len()
            invariant
                i <= self.entries@.len(),
                pairs_view(out@) == pairs_view(self.entries@).subrange(0, i as int),
            decreases self.entries@.len() - i,
        {
            let ghost before = pairs_view(out@);
            out.push((self.entries[i].0.clone(), self.entries[i].1.clone()));
            assert(pairs_view(out@) =~= before.push(pairs_view(self.entries@)[i as int]));
            assert(pairs_view(self.entries@).subrange(0, i + 1) =~= pairs_view(self.entries@).subrange(
                0,
                i as int,
            ).push(pairs_view(self.entries@)[i as int]));
            i = i + 1;
        }
        assert(pairs_view(self.entries@).subrange(0, self.entries@.len() as int) =~= pairs_view(
            self.entries@,
        ));
        out
    }
}

} // verus!

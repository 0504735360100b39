//! Paths as strings, with the Unix rules of `std::path`: joining, splitting
//! into components, and testing whether one path lies under another.  Also
//! the selection of search directories from what the file system reported.

use vstd::prelude::*;
use crate::text::{chars_eq, chars_of, split_chars, string_of};

verus! {

broadcast use vstd::string::group_string_axioms;

/// `base` joined with `rel` as `Path::join` does on Unix: an absolute `rel`
/// replaces `base`; otherwise a `/` is put between them unless `base` is
/// empty or already ends with one.
pub open spec fn path_join(base: Seq<char>, rel: Seq<char>) -> Seq<char> {
    if rel.len() > 0 && rel[0] == '/' {
        rel
    } else if base.len() > 0 && base.last() != '/' {
        base + seq!['/'] + rel
    } else {
        base + rel
    }
}

/// `base` joined with each of `parts` in turn.
pub open spec fn path_join_all(base: Seq<char>, parts: Seq<Seq<char>>) -> Seq<char>
    decreases parts.len(),
{
    if parts.len() == 0 {
        base
    } else {
        path_join(path_join_all(base, parts.drop_last()), parts.last())
    }
}

/// Joins two paths as `Path::join` does on Unix.
pub fn join_path(base: &str, rel: &str) -> (r: String)
    ensures
        r@ == path_join(base@, rel@),
{
    let b = chars_of(base);
    let mut out = chars_of(rel);
    if out.len() > 0 && out[0] == '/' {
        return string_of(out.as_slice());
    }
    let mut v = b;
    if v.len() > 0 && v[v.len() - 1] != '/' {
        v.push('/');
    }
    let ghost prefix = v@;
    let mut i: usize = 0;
    while i < out.len()
        invariant
            i <= out@.len(),
            out@ == rel@,
            v@ == prefix + rel@.subrange(0, i as int),
        decreases out@.len() - i,
    {
        v.push(out[i]);
        i = i + 1;
        assert(v@ =~= prefix + rel@.subrange(0, i as int));
    }
    assert(rel@.subrange(0, rel@.len() as int) =~= rel@);
    assert(v@ =~= path_join(base@, rel@));
    string_of(v.as_slice())
}

/// Whether a piece between separators is a real component: neither empty
/// nor `.`.
pub open spec fn is_normal_piece(p: Seq<char>) -> bool {
    p.len() > 0 && p != seq!['.']
}

/// The pieces that are real components, in order.
pub open spec fn normal_pieces(ps: Seq<Seq<char>>) -> Seq<Seq<char>>
    decreases ps.len(),
{
    if ps.len() == 0 {
        Seq::<Seq<char>>::empty()
    } else if is_normal_piece(ps.last()) {
        normal_pieces(ps.drop_last()).push(ps.last())
    } else {
        normal_pieces(ps.drop_last())
    }
}

/// The components of a path as `Path::components` yields them on Unix: a
/// leading `/` as the root, a leading `.` as the current directory, then
/// every piece between separators that is neither empty nor `.`.
pub open spec fn path_components(s: Seq<char>) -> Seq<Seq<char>> {
    let ps = crate::text::split_on(s, '/');
    if s.len() > 0 && s[0] == '/' {
        seq![seq!['/']] + normal_pieces(ps.drop_first())
    } else if ps.len() > 0 && ps[0] == seq!['.'] {
        seq![seq!['.']] + normal_pieces(ps.drop_first())
    } else {
        normal_pieces(ps)
    }
}

/// Whether `path` lies under `base`, as `Path::starts_with` decides it:
/// the components of `base` are the first components of `path`.
pub open spec fn path_starts_with(path: Seq<char>, base: Seq<char>) -> bool {
    let p = path_components(path);
    let b = path_components(base);
    b.len() <= p.len() && p.subrange(0, b.len() as int) == b
}

fn normal_pieces_exec(ps: &Vec<Vec<char>>, from: usize) -> (r: Vec<Vec<char>>)
    requires
        from <= ps@.len(),
    ensures
        crate::text::views_of(r@) == normal_pieces(crate::text::views_of(ps@).subrange(
            from as int,
            ps@.len() as int,
        )),
{
    let mut r: Vec<Vec<char>> = Vec::new();
    let mut i: usize = from;
    let dot = vec!['.'];
    while i < ps.len()
        invariant
            from <= i <= ps@.len(),
            dot@ == seq!['.'],
            crate::text::views_of(r@) == normal_pieces(crate::text::views_of(ps@).subrange(
                from as int,
                i as int,
            )),
        decreases ps@.len() - i,
    {
        let ghost all = crate::text::views_of(ps@);
        proof {
            assert(all.subrange(from as int, i + 1).drop_last() =~= all.subrange(
                from as int,
                i as int,
            ));
            assert(all.subrange(from as int, i + 1).last() == ps@[i as int]@);
        }
        if ps[i].len() > 0 && !chars_eq(ps[i].as_slice(), dot.as_slice()) {
            let p = ps[i].clone();
            r.push(p);
            assert(crate::text::views_of(r@) =~= crate::text::views_of(r@.drop_last()).push(
                ps@[i as int]@,
            ));
        }
        i = i + 1;
    }
    r
}

/// The components of a path, as `Path::components` gives them on Unix.
pub fn components_of(path: &str) -> (r: Vec<Vec<char>>)
    ensures
        crate::text::views_of(r@) == path_components(path@),
{
    let chars = chars_of(path);
    let pieces = split_chars(chars.as_slice(), '/');
    proof {
        crate::text::lemma_split_on_nonempty(path@, '/');
    }
    let ghost all = crate::text::views_of(pieces@);
    if chars.len() > 0 && chars[0] == '/' {
        let rest = normal_pieces_exec(&pieces, 1);
        let mut first: Vec<char> = Vec::new();
        first.push('/');
        let mut r: Vec<Vec<char>> = Vec::new();
        r.push(first);
        assert(crate::text::views_of(r@) =~= seq![seq!['/']]);
        let mut k: usize = 0;
        let ghost head = crate::text::views_of(r@);
        while k < rest.len()
            invariant
                k <= rest@.len(),
                head == seq![seq!['/']],
                crate::text::views_of(r@) == head + crate::text::views_of(rest@).subrange(
                    0,
                    k as int,
                ),
            decreases rest@.len() - k,
        {
            let c = rest[k].clone();
            assert(c@ =~= rest@[k as int]@);
            let ghost before = crate::text::views_of(r@);
            r.push(c);
            assert(crate::text::views_of(r@) =~= before.push(c@));
            assert(crate::text::views_of(rest@).subrange(0, k + 1) =~= crate::text::views_of(
                rest@,
            ).subrange(0, k as int).push(c@));
            k = k + 1;
            assert(crate::text::views_of(r@) =~= head + crate::text::views_of(rest@).subrange(
                0,
                k as int,
            ));
        }
        assert(all.subrange(1, all.len() as int) =~= all.drop_first());
        assert(crate::text::views_of(rest@).subrange(0, rest@.len() as int) =~= crate::text::views_of(rest@));
        r
    } else if pieces[0].len() == 1 && pieces[0][0] == '.' {
        let rest = normal_pieces_exec(&pieces, 1);
        let mut first: Vec<char> = Vec::new();
        first.push('.');
        let mut r: Vec<Vec<char>> = Vec::new();
        r.push(first);
        assert(crate::text::views_of(r@) =~= seq![seq!['.']]);
        let mut k: usize = 0;
        let ghost head = crate::text::views_of(r@);
        assert(pieces@[0]@ =~= seq!['.']);
        while k < rest.len()
            invariant
                k <= rest@.len(),
                head == seq![seq!['.']],
                crate::text::views_of(r@) == head + crate::text::views_of(rest@).subrange(
                    0,
                    k as int,
                ),
            decreases rest@.len() - k,
        {
            let c = rest[k].clone();
            assert(c@ =~= rest@[k as int]@);
            let ghost before = crate::text::views_of(r@);
            r.push(c);
            assert(crate::text::views_of(r@) =~= before.push(c@));
            assert(crate::text::views_of(rest@).subrange(0, k + 1) =~= crate::text::views_of(
                rest@,
            ).subrange(0, k as int).push(c@));
            k = k + 1;
            assert(crate::text::views_of(r@) =~= head + crate::text::views_of(rest@).subrange(
                0,
                k as int,
            ));
        }
        assert(all.subrange(1, all.len() as int) =~= all.drop_first());
        assert(crate::text::views_of(rest@).subrange(0, rest@.len() as int) =~= crate::text::views_of(rest@));
        r
    } else {
        proof {
            if pieces@[0]@ == seq!['.'] {
                assert(pieces@[0]@.len() == 1 && pieces@[0]@[0] == '.');
            }
        }
        let r = normal_pieces_exec(&pieces, 0);
        assert(all.subrange(0, all.len() as int) =~= all);
        r
    }
}

/// Whether two paths are equal as `Path`s are compared: component by
/// component.
pub fn same_path(a: &str, b: &str) -> (r: bool)
    ensures
        r == (path_components(a@) == path_components(b@)),
{
    let ab = path_is_under(a, b);
    let ba = path_is_under(b, a);
    proof {
        let pa = path_components(a@);
        let pb = path_components(b@);
        if ab && ba {
            assert(pa.len() == pb.len());
            assert(pa.subrange(0, pb.len() as int) =~= pa);
        }
        if pa == pb {
            assert(pa.subrange(0, pb.len() as int) =~= pb);
        }
    }
    ab && ba
}

/// Whether `path` lies under `base`, component by component, as
/// `Path::starts_with` decides it.
pub fn path_is_under(path: &str, base: &str) -> (r: bool)
    ensures
        r == path_starts_with(path@, base@),
{
    let p = components_of(path);
    let b = components_of(base);
    if b.len() > p.len() {
        return false;
    }
    let mut i: usize = 0;
    while i < b.len()
        invariant
            b@.len() <= p@.len(),
            i <= b@.len(),
            crate::text::views_of(p@) == path_components(path@),
            crate::text::views_of(b@) == path_components(base@),
            forall|k: int| 0 <= k < i ==> p@[k]@ == b@[k]@,
        decreases b@.len() - i,
    {
        if !chars_eq(p[i].as_slice(), b[i].as_slice()) {
            assert(b@.len() <= p@.len());
            assert(crate::text::views_of(p@).subrange(0, b@.len() as int)[i as int] != crate::text::views_of(b@)[i as int]);
            assert(crate::text::views_of(p@).subrange(0, b@.len() as int) != crate::text::views_of(b@));
            return false;
        }
        i = i + 1;
    }
    assert(crate::text::views_of(p@).subrange(0, b@.len() as int) =~= crate::text::views_of(b@));
    true
}

} // verus!

verus! {

/// Components written back with `/` between them, a leading root as `/`.
pub open spec fn join_pieces(cs: Seq<Seq<char>>) -> Seq<char>
    decreases cs.len(),
{
    if cs.len() == 0 {
        Seq::<char>::empty()
    } else if cs.len() == 1 {
        cs[0]
    } else {
        join_pieces(cs.drop_last()) + seq!['/'] + cs.last()
    }
}

/// The path that a list of components stands for.
pub open spec fn render_components(cs: Seq<Seq<char>>) -> Seq<char> {
    if cs.len() > 0 && cs[0] == seq!['/'] {
        seq!['/'] + join_pieces(cs.drop_first())
    } else {
        join_pieces(cs)
    }
}

/// The directory that holds `p`: the path of all its components but the
/// last, when the last is not the root; `None` for the root and the empty
/// path (as `Path::parent`, up to the spelling of the same components).
pub open spec fn path_parent(p: Seq<char>) -> Option<Seq<char>> {
    let c = path_components(p);
    if c.len() == 0 || c.last() == seq!['/'] {
        None
    } else {
        Some(render_components(c.drop_last()))
    }
}

/// The last component of `p` when it is a name: not the root, `.` or `..`
/// (as `Path::file_name`).
pub open spec fn path_file_name(p: Seq<char>) -> Option<Seq<char>> {
    let c = path_components(p);
    if c.len() > 0 && c.last() != seq!['/'] && c.last() != seq!['.'] && c.last() != seq!['.', '.'] {
        Some(c.last())
    } else {
        None
    }
}

/// Whether `p` names a file whose extension is `so`, as
/// `path.extension() == Some("so")` decides it: the file name ends in `.so`
/// and something precedes that dot.
pub open spec fn has_so_extension(p: Seq<char>) -> bool {
    match path_file_name(p) {
        Some(f) => f.len() > 3 && f.subrange(f.len() - 3, f.len() as int) == seq!['.', 's', 'o'],
        None => false,
    }
}

/// Whether the file name of `p` has the extension `ext`, as
/// `path.extension() == Some(ext)` decides it for an extension without a
/// dot: the name ends in `.` and `ext`, and something precedes that dot.
pub open spec fn has_extension(p: Seq<char>, ext: Seq<char>) -> bool {
    match path_file_name(p) {
        Some(f) => f.len() > ext.len() + 1 && f.subrange(f.len() - ext.len() - 1, f.len() as int)
            == seq!['.'] + ext,
        None => false,
    }
}

fn append_chars(out: &mut Vec<char>, s: &Vec<char>)
    ensures
        final(out)@ == old(out)@ + s@,
{
    let mut i: usize = 0;
    let ghost start = out@;
    while i < s.len()
        invariant
            i <= s@.len(),
            out@ == start + s@.subrange(0, i as int),
        decreases s@.len() - i,
    {
        out.push(s[i]);
        i = i + 1;
        assert(out@ =~= start + s@.subrange(0, i as int));
    }
    assert(s@.subrange(0, s@.len() as int) =~= s@);
}

fn join_pieces_exec(cs: &Vec<Vec<char>>, from: usize, to: usize) -> (r: Vec<char>)
    requires
        from <= to <= cs@.len(),
    ensures
        r@ == join_pieces(crate::text::views_of(cs@).subrange(from as int, to as int)),
{
    let mut out: Vec<char> = Vec::new();
    let mut i: usize = from;
    while i < to
        invariant
            from <= i <= to <= cs@.len(),
            out@ == join_pieces(crate::text::views_of(cs@).subrange(from as int, i as int)),
        decreases to - i,
    {
        let ghost all = crate::text::views_of(cs@);
        proof {
            assert(all.subrange(from as int, i + 1).drop_last() =~= all.subrange(
                from as int,
                i as int,
            ));
            assert(all.subrange(from as int, i + 1).last() == cs@[i as int]@);
        }
        if i > from {
            out.push('/');
        }
        append_chars(&mut out, &cs[i]);
        proof {
            if i > from {
                assert(all.subrange(from as int, i + 1).len() > 1);
            } else {
                assert(all.subrange(from as int, i + 1) =~= seq![cs@[i as int]@]);
                assert(out@ =~= cs@[i as int]@);
            }
        }
        i = i + 1;
    }
    out
}

fn render_exec(cs: &Vec<Vec<char>>, to: usize) -> (r: Vec<char>)
    requires
        to <= cs@.len(),
    ensures
        r@ == render_components(crate::text::views_of(cs@).subrange(0, to as int)),
{
    let ghost all = crate::text::views_of(cs@);
    if to > 0 && cs[0].len() == 1 && cs[0][0] == '/' {
        assert(cs@[0]@ =~= seq!['/']);
        let mut out: Vec<char> = Vec::new();
        out.push('/');
        let rest = join_pieces_exec(cs, 1, to);
        append_chars(&mut out, &rest);
        assert(all.subrange(0, to as int).drop_first() =~= all.subrange(1, to as int));
        assert(out@ =~= seq!['/'] + rest@);
        out
    } else {
        proof {
            if to > 0 && all.subrange(0, to as int)[0] == seq!['/'] {
                assert(cs@[0]@ == seq!['/']);
                assert(cs@[0]@.len() == 1 && cs@[0]@[0] == '/');
            }
        }
        join_pieces_exec(cs, 0, to)
    }
}

/// The directory that holds `path` (see `path_parent`).
pub fn parent_of(path: &str) -> (r: Option<String>)
    ensures
        match r {
            Some(s) => path_parent(path@) == Some(s@),
            None => path_parent(path@) is None,
        },
{
    let cs = components_of(path);
    let ghost all = crate::text::views_of(cs@);
    if cs.len() == 0 {
        return None;
    }
    let last = cs.len() - 1;
    assert(all.last() == cs@[last as int]@);
    if cs[last].len() == 1 && cs[last][0] == '/' {
        assert(cs@[last as int]@ =~= seq!['/']);
        return None;
    }
    proof {
        if all.last() == seq!['/'] {
            assert(cs@[last as int]@.len() == 1);
        }
    }
    let r = render_exec(&cs, last);
    assert(all.subrange(0, last as int) =~= all.drop_last());
    Some(string_of(r.as_slice()))
}

/// The file name of `path` (see `path_file_name`).
pub fn file_name_of(path: &str) -> (r: Option<String>)
    ensures
        match r {
            Some(s) => path_file_name(path@) == Some(s@),
            None => path_file_name(path@) is None,
        },
{
    let cs = components_of(path);
    let ghost all = crate::text::views_of(cs@);
    if cs.len() == 0 {
        return None;
    }
    let last = cs.len() - 1;
    assert(all.last() == cs@[last as int]@);
    let dot: Vec<char> = vec!['.'];
    let dotdot: Vec<char> = vec!['.', '.'];
    let slash: Vec<char> = vec!['/'];
    assert(dot@ =~= seq!['.']);
    assert(dotdot@ =~= seq!['.', '.']);
    assert(slash@ =~= seq!['/']);
    if chars_eq(cs[last].as_slice(), slash.as_slice()) || chars_eq(cs[last].as_slice(), dot.as_slice())
        || chars_eq(cs[last].as_slice(), dotdot.as_slice()) {
        return None;
    }
    Some(string_of(cs[last].as_slice()))
}

/// Whether `path` has the extension `so` (see `has_so_extension`).
pub fn is_shared_object(path: &str) -> (r: bool)
    ensures
        r == has_so_extension(path@),
{
    match file_name_of(path) {
        Some(f) => {
            let v = chars_of(f.as_str());
            let n = v.len();
            if n > 3 && v[n - 3] == '.' && v[n - 2] == 's' && v[n - 1] == 'o' {
                assert(v@.subrange(n - 3, n as int) =~= seq!['.', 's', 'o']);
                true
            } else {
                proof {
                    if n > 3 && v@.subrange(n - 3, n as int) == seq!['.', 's', 'o'] {
                        assert(v@.subrange(n - 3, n as int)[0] == v@[n - 3]);
                        assert(v@.subrange(n - 3, n as int)[1] == v@[n - 2]);
                        assert(v@.subrange(n - 3, n as int)[2] == v@[n - 1]);
                    }
                }
                false
            }
        },
        None => false,
    }
}

} // verus!

verus! {

proof fn lemma_normal_pieces_from(ps: Seq<Seq<char>>)
    requires
        forall|i: int| 0 <= i < ps.len() ==> !(#[trigger] ps[i]).contains('/'),
    ensures
        forall|i: int|
            0 <= i < normal_pieces(ps).len() ==> #[trigger] is_normal_piece(normal_pieces(ps)[i])
                && !normal_pieces(ps)[i].contains('/'),
    decreases ps.len(),
{
    if ps.len() > 0 {
        assert forall|i: int| 0 <= i < ps.drop_last().len() implies !(
        #[trigger] ps.drop_last()[i]).contains('/') by {
            assert(ps.drop_last()[i] == ps[i]);
        }
        lemma_normal_pieces_from(ps.drop_last());
        let r = normal_pieces(ps.drop_last());
        assert forall|i: int| 0 <= i < normal_pieces(ps).len() implies #[trigger] is_normal_piece(
            normal_pieces(ps)[i],
        ) && !normal_pieces(ps)[i].contains('/') by {
            if i < r.len() {
                assert(normal_pieces(ps)[i] == r[i]);
            } else {
                assert(normal_pieces(ps)[i] == ps.last());
                assert(ps[ps.len() - 1] == ps.last());
            }
        }
    }
}

/// A bare file name is not empty, holds no `/`, and is neither `.` nor
/// `..`: joined to a directory, it names a file directly inside it.
pub proof fn lemma_file_name_is_bare(p: Seq<char>)
    requires
        path_file_name(p) is Some,
    ensures
        path_file_name(p)->0.len() > 0,
        !path_file_name(p)->0.contains('/'),
        path_file_name(p)->0 != seq!['.'],
        path_file_name(p)->0 != seq!['.', '.'],
{
    let ps = crate::text::split_on(p, '/');
    let c = path_components(p);
    let f = c.last();
    crate::text::lemma_split_on_pieces_lack_sep(p, '/');
    crate::text::lemma_split_on_nonempty(p, '/');
    if p.len() > 0 && p[0] == '/' {
        let n = normal_pieces(ps.drop_first());
        assert(c.len() > 1);
        assert forall|i: int| 0 <= i < ps.drop_first().len() implies !(
        #[trigger] ps.drop_first()[i]).contains('/') by {
            assert(ps.drop_first()[i] == ps[i + 1]);
        }
        lemma_normal_pieces_from(ps.drop_first());
        assert(f == n[n.len() - 1]);
        assert(is_normal_piece(n[n.len() - 1]));
    } else if ps[0] == seq!['.'] {
        let n = normal_pieces(ps.drop_first());
        assert(c.len() > 1);
        assert forall|i: int| 0 <= i < ps.drop_first().len() implies !(
        #[trigger] ps.drop_first()[i]).contains('/') by {
            assert(ps.drop_first()[i] == ps[i + 1]);
        }
        lemma_normal_pieces_from(ps.drop_first());
        assert(f == n[n.len() - 1]);
        assert(is_normal_piece(n[n.len() - 1]));
    } else {
        let n = normal_pieces(ps);
        lemma_normal_pieces_from(ps);
        assert(f == n[n.len() - 1]);
        assert(is_normal_piece(n[n.len() - 1]));
    }
}

/// Whether `path` has the extension `ext` (see `has_extension`).
pub fn path_has_extension(path: &str, ext: &str) -> (r: bool)
    ensures
        r == has_extension(path@, ext@),
{
    match file_name_of(path) {
        Some(f) => {
            let fv = chars_of(f.as_str());
            let ev = chars_of(ext);
            let n = fv.len();
            let m = ev.len();
            if n <= m || n - m <= 1 {
                return false;
            }
            let start = n - m - 1;
            let mut want: Vec<char> = Vec::new();
            want.push('.');
            let mut i: usize = 0;
            while i < m
                invariant
                    i <= m,
                    m == ev@.len(),
                    ev@ == ext@,
                    want@ == seq!['.'] + ev@.subrange(0, i as int),
                decreases m - i,
            {
                want.push(ev[i]);
                i = i + 1;
                assert(want@ =~= seq!['.'] + ev@.subrange(0, i as int));
            }
            assert(ev@.subrange(0, m as int) =~= ev@);
            let mut tail: Vec<char> = Vec::new();
            let mut j: usize = start;
            while j < n
                invariant
                    start <= j <= n,
                    n == fv@.len(),
                    tail@ == fv@.subrange(start as int, j as int),
                decreases n - j,
            {
                tail.push(fv[j]);
                j = j + 1;
                assert(tail@ =~= fv@.subrange(start as int, j as int));
            }
            crate::text::chars_eq(tail.as_slice(), want.as_slice())
        },
        None => false,
    }
}

} // verus!

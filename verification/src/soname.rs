//! The `SONAME` given on the command line for the library being built:
//! versioned names are refused, bare names are completed to `lib<name>.so`.

use vstd::prelude::*;
use crate::text::{chars_occur_at, chars_of, first_occurrence};

verus! {

broadcast use vstd::string::group_string_axioms;

/// `0` to `9`.
pub open spec fn is_ascii_digit(c: char) -> bool {
    '0' <= c && c <= '9'
}

/// Whether a version number starts right after a `.so.` at `i` in `s`:
/// `.so.` occurs there and a digit follows it.
pub open spec fn versioned_at(s: Seq<char>, i: int) -> bool {
    crate::text::occurs_at(s, ".so."@, i) && i + 4 < s.len() && is_ascii_digit(s[i + 4])
}

/// Whether `s` names a versioned library: somewhere in it `.so.` is
/// followed by a digit, as in `libfoo.so.1`.
pub open spec fn is_versioned_soname(s: Seq<char>) -> bool {
    exists|i: int| #[trigger] versioned_at(s, i)
}

/// What a `SONAME` given on the command line becomes: kept when it starts
/// with `lib` and holds `.so`; `lib` put before it when it ends with
/// `.so`; else `lib` before and `.so` after it.
pub open spec fn normalized_soname(s: Seq<char>) -> Seq<char> {
    if crate::text::starts_with_seq(s, "lib"@) && crate::text::contains_seq(s, ".so"@) {
        s
    } else if crate::text::ends_with_seq(s, ".so"@) {
        "lib"@ + s
    } else {
        "lib"@ + s + ".so"@
    }
}

/// The message refusing a versioned `SONAME`.
pub open spec fn versioned_soname_message(s: Seq<char>) -> Seq<char> {
    "SONAME format with version number is not supported: '"@ + s
        + "'. Please use format like 'libxx.so' or 'xx'."@
}

/// Refuses a versioned `SONAME`, one in which `.so.` is followed by a
/// digit, such as `libfoo.so.1`.
pub fn validate_soname(soname: &str) -> (r: Result<(), String>)
    ensures
        r is Err <==> is_versioned_soname(soname@),
        r matches Err(m) ==> m@ == versioned_soname_message(soname@),
{
    let s = chars_of(soname);
    let pat: Vec<char> = vec!['.', 's', 'o', '.'];
    proof {
        reveal_strlit(".so.");
    }
    assert(pat@ =~= ".so."@);
    let n = s.len();
    let mut i: usize = 0;
    while i < n
        invariant
            n == s@.len(),
            s@ == soname@,
            pat@ == ".so."@,
            i <= n,
            forall|j: int| 0 <= j < i ==> !#[trigger] versioned_at(s@, j),
        decreases n - i,
    {
        if chars_occur_at(&s, &pat, i) && n - i > 4 && '0' <= s[i + 4] && s[i + 4] <= '9' {
            assert(versioned_at(s@, i as int));
            return Err(
                "SONAME format with version number is not supported: '".to_owned().concat(soname).concat(
                    "'. Please use format like 'libxx.so' or 'xx'.",
                ),
            );
        }
        i = i + 1;
    }
    proof {
        if is_versioned_soname(soname@) {
            let j = choose|j: int| #[trigger] versioned_at(soname@, j);
            assert(j < n);
        }
    }
    Ok(())
}

/// Completes a `SONAME` given on the command line (see
/// `normalized_soname`); a versioned one is refused.
pub fn normalize_soname(soname: &str) -> (r: Result<String, String>)
    ensures
        r is Err <==> is_versioned_soname(soname@),
        r matches Err(m) ==> m@ == versioned_soname_message(soname@),
        r matches Ok(n) ==> n@ == normalized_soname(soname@),
{
    validate_soname(soname)?;
    let s = chars_of(soname);
    let lib: Vec<char> = vec!['l', 'i', 'b'];
    let so: Vec<char> = vec!['.', 's', 'o'];
    proof {
        reveal_strlit("lib");
        reveal_strlit(".so");
    }
    assert(lib@ =~= "lib"@);
    assert(so@ =~= ".so"@);
    let starts_lib = chars_occur_at(&s, &lib, 0);
    let has_so = first_occurrence(&s, &so).is_some();
    proof {
        if crate::text::contains_seq(s@, so@) && !has_so {
            let j = choose|j: int| #[trigger] crate::text::occurs_at(s@, so@, j);
            assert(crate::text::occurs_at(s@, so@, j));
        }
    }
    if starts_lib && has_so {
        return Ok(soname.to_owned());
    }
    let ends_so = s.len() >= 3 && chars_occur_at(&s, &so, s.len() - 3);
    proof {
        if crate::text::ends_with_seq(s@, so@) {
            assert(s@.len() >= 3);
        }
    }
    if ends_so {
        Ok("lib".to_owned().concat(soname))
    } else {
        Ok("lib".to_owned().concat(soname).concat(".so"))
    }
}

// ---------------------------------------------------------------------
// Laws
// ---------------------------------------------------------------------

proof fn lemma_occurs_in_prefixed(s: Seq<char>, k: int)
    ensures
        crate::text::occurs_at("lib"@ + s, ".so."@, k) <==> (k >= 3 && crate::text::occurs_at(s, ".so."@, k - 3)),
{
    let t = "lib"@ + s;
    reveal_strlit("lib");
    reveal_strlit(".so.");
    if crate::text::occurs_at(t, ".so."@, k) {
        assert(t.subrange(k, k + 4)[0] == '.');
        assert(t[k] == '.');
        if k < 3 {
            assert(t[k] == "lib"@[k]);
        }
        assert(t.subrange(k, k + 4) =~= s.subrange(k - 3, k + 1));
    }
    if k >= 3 && crate::text::occurs_at(s, ".so."@, k - 3) {
        assert(t.subrange(k, k + 4) =~= s.subrange(k - 3, k + 1));
    }
}

proof fn lemma_prefix_keeps_unversioned(s: Seq<char>)
    requires
        !is_versioned_soname(s),
    ensures
        !is_versioned_soname("lib"@ + s),
{
    let t = "lib"@ + s;
    reveal_strlit("lib");
    if is_versioned_soname(t) {
        let i = choose|i: int| #[trigger] versioned_at(t, i);
        lemma_occurs_in_prefixed(s, i);
        assert(t[i + 4] == s[i - 3 + 4]);
        assert(versioned_at(s, i - 3));
    }
}

proof fn lemma_occurs_in_suffixed(s: Seq<char>, k: int)
    requires
        !crate::text::ends_with_seq(s, ".so"@),
    ensures
        crate::text::occurs_at(s + ".so"@, ".so."@, k) <==> crate::text::occurs_at(s, ".so."@, k),
{
    let t = s + ".so"@;
    reveal_strlit(".so");
    reveal_strlit(".so.");
    if crate::text::occurs_at(t, ".so."@, k) {
        assert(t.subrange(k, k + 4)[3] == '.');
        if k + 4 > s.len() {
            if k + 4 == s.len() + 1 {
                assert(t[k + 3] == '.');
                assert(t.subrange(k, k + 3) =~= s.subrange(s.len() - 3, s.len() as int));
                assert(s.subrange(s.len() - 3, s.len() as int) =~= ".so"@);
            } else {
                assert(t[k + 3] == ".so"@[k + 3 - s.len()]);
            }
        }
        assert(t.subrange(k, k + 4) =~= s.subrange(k, k + 4));
    }
    if crate::text::occurs_at(s, ".so."@, k) {
        assert(t.subrange(k, k + 4) =~= s.subrange(k, k + 4));
    }
}

proof fn lemma_suffix_keeps_unversioned(s: Seq<char>)
    requires
        !is_versioned_soname(s),
        !crate::text::ends_with_seq(s, ".so"@),
    ensures
        !is_versioned_soname(s + ".so"@),
{
    let t = s + ".so"@;
    reveal_strlit(".so");
    if is_versioned_soname(t) {
        let i = choose|i: int| #[trigger] versioned_at(t, i);
        lemma_occurs_in_suffixed(s, i);
        if i + 4 >= s.len() {
            assert(t[i + 4] == ".so"@[i + 4 - s.len()]);
        } else {
            assert(t[i + 4] == s[i + 4]);
            assert(versioned_at(s, i));
        }
    }
}

/// A completed name is never versioned, starts with `lib` and holds
/// `.so`; so completing it again changes nothing.
pub proof fn lemma_normalized_soname_is_stable(s: Seq<char>)
    requires
        !is_versioned_soname(s),
    ensures
        !is_versioned_soname(normalized_soname(s)),
        crate::text::starts_with_seq(normalized_soname(s), "lib"@),
        crate::text::contains_seq(normalized_soname(s), ".so"@),
        normalized_soname(normalized_soname(s)) == normalized_soname(s),
{
    reveal_strlit("lib");
    reveal_strlit(".so");
    let n = normalized_soname(s);
    if crate::text::starts_with_seq(s, "lib"@) && crate::text::contains_seq(s, ".so"@) {
    } else if crate::text::ends_with_seq(s, ".so"@) {
        lemma_prefix_keeps_unversioned(s);
        assert(n.subrange(0, 3) =~= "lib"@);
        let k = s.len() - 3;
        assert(n.subrange(k + 3, k + 6) =~= s.subrange(k, k + 3));
        assert(crate::text::occurs_at(n, ".so"@, k + 3));
    } else {
        lemma_suffix_keeps_unversioned(s);
        lemma_prefix_keeps_unversioned(s + ".so"@);
        assert(n =~= "lib"@ + (s + ".so"@));
        assert(n.subrange(0, 3) =~= "lib"@);
        assert(n.subrange(n.len() - 3, n.len() as int) =~= ".so"@);
        assert(crate::text::occurs_at(n, ".so"@, n.len() - 3));
    }
}

} // verus!

//! The strings handed to the runtime when a module is loaded: each must
//! become a C string, so it may hold no NUL byte.

use vstd::prelude::*;
use vstd::string::StringSliceAdditionalSpecFns;

verus! {

/// The index of the first NUL byte of `bytes`, if it has one.
pub open spec fn first_nul(bytes: Seq<u8>) -> Option<int>
    decreases bytes.len(),
{
    if bytes.len() == 0 {
        None
    } else if bytes[0] == 0 {
        Some(0)
    } else {
        match first_nul(bytes.drop_first()) {
            Some(i) => Some(i + 1),
            None => None,
        }
    }
}

/// The bytes of `s` as a C string holds them (without its terminator):
/// its UTF-8 encoding when that holds no NUL byte, else the position of
/// the first one.
pub open spec fn c_string_of(s: Seq<u8>) -> Result<Seq<u8>, int> {
    match first_nul(s) {
        Some(i) => Err(i),
        None => Ok(s),
    }
}

proof fn lemma_first_nul_scan(bytes: Seq<u8>, i: int)
    requires
        0 <= i <= bytes.len(),
        forall|k: int| 0 <= k < i ==> bytes[k] != 0,
    ensures
        i < bytes.len() && bytes[i] == 0 ==> first_nul(bytes) == Some(i),
        i == bytes.len() ==> first_nul(bytes) is None,
    decreases i,
{
    if i > 0 {
        let rest = bytes.drop_first();
        assert forall|k: int| 0 <= k < i - 1 implies rest[k] != 0 by {
            assert(rest[k] == bytes[k + 1]);
        }
        lemma_first_nul_scan(rest, i - 1);
        if i < bytes.len() && bytes[i] == 0 {
            assert(rest[i - 1] == bytes[i]);
        }
    }
}

/// The bytes of `s` as a C string (see `c_string_of`); the error is the
/// position of the first NUL byte.
pub fn c_string_bytes(s: &str) -> (r: Result<Vec<u8>, usize>)
    ensures
        match r {
            Ok(b) => c_string_of(s.spec_bytes()) == Ok::<Seq<u8>, int>(b@),
            Err(p) => c_string_of(s.spec_bytes()) == Err::<Seq<u8>, int>(p as int),
        },
{
    let bytes = s.as_bytes();
    let mut i: usize = 0;
    while i < bytes.len()
        invariant
            bytes@ == s.spec_bytes(),
            i <= bytes@.len(),
            forall|k: int| 0 <= k < i ==> bytes@[k] != 0,
        decreases bytes@.len() - i,
    {
        if bytes[i] == 0 {
            proof {
                lemma_first_nul_scan(bytes@, i as int);
            }
            return Err(i);
        }
        i = i + 1;
    }
    proof {
        lemma_first_nul_scan(bytes@, i as int);
    }
    Ok(vstd::slice::slice_to_vec(bytes))
}

/// The module path and the module information of a load, as the C strings
/// handed to the runtime: the first NUL byte met, in the path first, fails
/// the load and is reported by its position.
pub fn load_with_info(path: &str, module_info: &str) -> (r: Result<(Vec<u8>, Vec<u8>), usize>)
    ensures
        match r {
            Ok((p, i)) => c_string_of(path.spec_bytes()) == Ok::<Seq<u8>, int>(p@)
                && c_string_of(module_info.spec_bytes()) == Ok::<Seq<u8>, int>(i@),
            Err(pos) => c_string_of(path.spec_bytes()) == Err::<Seq<u8>, int>(pos as int) || (
            c_string_of(path.spec_bytes()) is Ok && c_string_of(module_info.spec_bytes()) == Err::<
                Seq<u8>,
                int,
            >(pos as int)),
        },
{
    let c_path = match c_string_bytes(path) {
        Ok(b) => b,
        Err(p) => return Err(p),
    };
    let c_info = match c_string_bytes(module_info) {
        Ok(b) => b,
        Err(p) => return Err(p),
    };
    Ok((c_path, c_info))
}

} // verus!

//! Preparing strings for native calls that take NUL-terminated text.

use vstd::prelude::*;

verus! {

/// Whether `s` ends in a NUL and holds no other.
pub open spec fn ends_in_only_nul(s: Seq<u8>) -> bool {
    &&& s.len() > 0
    &&& s.last() == 0
    &&& forall|i: int| 0 <= i < s.len() - 1 ==> s[i] != 0
}

/// `s` with every NUL replaced by `?`, followed by one NUL.
pub open spec fn c_copy(s: Seq<u8>) -> Seq<u8> {
    s.map_values(|b: u8| if b == 0 { 63u8 } else { b }).push(0)
}

/// `s` with every NUL unit replaced by `?`, followed by one NUL unit.
pub open spec fn wide_copy(s: Seq<u16>) -> Seq<u16> {
    s.map_values(|u: u16| if u == 0 { 63u16 } else { u }).push(0)
}

/// The bytes of a C string for the UTF-8 bytes `s`: `None` when `s` already
/// ends in its only NUL and can be passed as it is; otherwise a copy with
/// inner NULs turned into `?` and a NUL appended.
pub fn c_string_bytes(s: &[u8]) -> (r: Option<Vec<u8>>)
    ensures
        r is None <==> ends_in_only_nul(s@),
        r matches Some(v) ==> v@ == c_copy(s@),
{
    let n = s.len();
    if n > 0 && s[n - 1] == 0 {
        let mut k: usize = 0;
        let mut inner_nul = false;
        while k < n - 1
            invariant
                n == s@.len(),
                n > 0,
                k <= n - 1,
                inner_nul == exists|i: int| 0 <= i < k && s@[i] == 0,
            decreases n - 1 - k,
        {
            if s[k] == 0 {
                inner_nul = true;
            }
            k = k + 1;
        }
        if !inner_nul {
            return None;
        }
    }
    let mut v: Vec<u8> = Vec::new();
    let mut k: usize = 0;
    while k < n
        invariant
            n == s@.len(),
            k <= n,
            v@ == s@.take(k as int).map_values(|b: u8| if b == 0 { 63u8 } else { b }),
        decreases n - k,
    {
        let b = s[k];
        v.push(if b == 0 { 63 } else { b });
        assert(s@.take(k + 1) =~= s@.take(k as int).push(b));
        assert(v@ =~= s@.take(k + 1).map_values(|b: u8| if b == 0 { 63u8 } else { b }));
        k = k + 1;
    }
    assert(s@.take(n as int) =~= s@);
    v.push(0);
    Some(v)
}

/// The units of a NUL-terminated wide string for the UTF-16 units `s`: inner
/// NULs turned into `?` and a NUL appended.
pub fn wide_string_units(s: &[u16]) -> (r: Vec<u16>)
    ensures
        r@ == wide_copy(s@),
{
    let n = s.len();
    let mut v: Vec<u16> = Vec::new();
    let mut k: usize = 0;
    while k < n
        invariant
            n == s@.len(),
            k <= n,
            v@ == s@.take(k as int).map_values(|u: u16| if u == 0 { 63u16 } else { u }),
        decreases n - k,
    {
        let u = s[k];
        v.push(if u == 0 { 63 } else { u });
        assert(s@.take(k + 1) =~= s@.take(k as int).push(u));
        assert(v@ =~= s@.take(k + 1).map_values(|u: u16| if u == 0 { 63u16 } else { u }));
        k = k + 1;
    }
    assert(s@.take(n as int) =~= s@);
    v.push(0);
    v
}

} // verus!

//! Small verified helpers on strings and byte sequences: character
//! extraction, equality, and decimal rendering of integers.

use vstd::prelude::*;
use vstd::std_specs::iter::IteratorSpec;
use vstd::string::StringSliceAdditionalSpecFns;

verus! {

broadcast use vstd::string::group_string_axioms;

/// The characters of `s`, collected into a vector.
pub fn str_chars(s: &str) -> (r: Vec<char>)
    ensures
        r@ == s@,
{
    let mut it = s.chars();
    let mut out: Vec<char> = Vec::new();
    loop
        invariant_except_break
            out@ + it.remaining() == s@,
        ensures
            out@ == s@,
        decreases s@.len() - out@.len(),
    {
        match it.next() {
            Some(c) => {
                out.push(c);
                assert(out@ + it.remaining() =~= s@);
            },
            None => {
                assert(out@ =~= s@);
                break ;
            },
        }
    }
    out
}

/// Byte-for-byte equality of two slices.
pub fn bytes_eq(a: &[u8], b: &[u8]) -> (r: bool)
    ensures
        r == (a@ == b@),
{
    if a.len() != b.len() {
        return false;
    }
    let n = a.len();
    let mut i: usize = 0;
    while i < n
        invariant
            n == a@.len(),
            n == b@.len(),
            i <= n,
            forall|j: int| 0 <= j < i ==> a@[j] == b@[j],
        decreases n - i,
    {
        if a[i] != b[i] {
            return false;
        }
        i = i + 1;
    }
    assert(a@ =~= b@);
    true
}

/// Equality of two string slices, stated over their character views.
pub fn str_eq(a: &str, b: &str) -> (r: bool)
    ensures
        r == (a@ == b@),
{
    let r = bytes_eq(a.as_bytes(), b.as_bytes());
    proof {
        broadcast use vstd::utf8::encode_utf8_decode_utf8;

        if r {
            assert(vstd::utf8::decode_utf8(vstd::utf8::encode_utf8(a@)) == a@);
            assert(vstd::utf8::decode_utf8(vstd::utf8::encode_utf8(b@)) == b@);
        }
    }
    r
}

/// The decimal digits of `n`, most significant first, as ASCII bytes.
pub open spec fn spec_decimal(n: nat) -> Seq<u8>
    decreases n,
{
    if n < 10 {
        seq![(48 + n) as u8]
    } else {
        spec_decimal(n / 10) + seq![(48 + n % 10) as u8]
    }
}

/// Render `n` in decimal as ASCII bytes.
pub fn u64_decimal(n: u64) -> (r: Vec<u8>)
    ensures
        r@ == spec_decimal(n as nat),
{
    let mut digits: Vec<u8> = Vec::new();
    let mut m = n;
    loop
        invariant_except_break
            (digits@.len() == 0 && m == n) || (m > 0 && spec_decimal(n as nat) == spec_decimal(
                m as nat,
            ) + digits@),
        ensures
            digits@ == spec_decimal(n as nat),
        decreases m,
    {
        let d: u8 = (m % 10) as u8;
        let ghost pre = digits@;
        let ghost m0 = m;
        digits.insert(0, 48 + d);
        proof {
            assert(digits@ =~= seq![(48 + d) as u8] + pre);
        }
        m = m / 10;
        proof {
            if m0 < 10 {
                assert(spec_decimal(m0 as nat) == seq![(48 + d) as u8]);
            } else {
                assert(spec_decimal(m0 as nat) == spec_decimal(m0 as nat / 10) + seq![
                    (48 + d) as u8,
                ]);
            }
            if pre.len() == 0 {
                assert(spec_decimal(n as nat) == spec_decimal(m0 as nat));
            }
            assert(spec_decimal(m0 as nat) + pre =~= if m0 < 10 {
                digits@
            } else {
                spec_decimal(m0 as nat / 10) + digits@
            });
        }
        if m == 0 {
            break ;
        }
    }
    digits
}

} // verus!

//! Byte layouts shared by the protocols.
use vstd::prelude::*;

verus! {

/// The UTF-8 bytes of a text.
pub open spec fn text_bytes(text: Seq<char>) -> Seq<u8> {
    vstd::utf8::encode_utf8(text)
}

/// The `n` low bytes of `x`, least significant first.
pub open spec fn le_bytes(x: nat, n: nat) -> Seq<u8>
    decreases n,
{
    if n == 0 {
        Seq::empty()
    } else {
        seq![(x % 256) as u8] + le_bytes(x / 256, (n - 1) as nat)
    }
}

/// The number whose little-endian digits are `s`.
pub open spec fn le_value(s: Seq<u8>) -> nat
    decreases s.len(),
{
    if s.len() == 0 {
        0
    } else {
        s[0] as nat + 256 * le_value(s.drop_first())
    }
}

/// `256` to the power `n`.
pub open spec fn byte_range(n: nat) -> nat
    decreases n,
{
    if n == 0 {
        1
    } else {
        256 * byte_range((n - 1) as nat)
    }
}

/// Reading back `n` little-endian bytes of a number that fits in them gives the number.
pub proof fn le_bytes_read_back(x: nat, n: nat)
    requires
        x < byte_range(n),
    ensures
        le_bytes(x, n).len() == n,
        le_value(le_bytes(x, n)) == x,
    decreases n,
{
    if n > 0 {
        let rest = le_bytes(x / 256, (n - 1) as nat);
        le_bytes_read_back(x / 256, (n - 1) as nat);
        assert(le_bytes(x, n).drop_first() =~= rest);
    }
}

/// A 16-bit number in network byte order.
pub open spec fn be_u16(x: u16) -> Seq<u8> {
    seq![(x / 256) as u8, (x % 256) as u8]
}

/// The number that two bytes in network order stand for.
pub open spec fn be_value(hi: u8, lo: u8) -> int {
    hi * 256 + lo
}

/// Appends a 16-bit number in network byte order.
pub fn push_be_u16(v: &mut Vec<u8>, x: u16)
    ensures
        final(v)@ == old(v)@ + be_u16(x),
{
    v.push((x / 256) as u8);
    v.push((x % 256) as u8);
}

/// Appends every byte of `s`.
pub fn push_all(v: &mut Vec<u8>, s: &[u8])
    ensures
        final(v)@ == old(v)@ + s@,
{
    v.extend_from_slice(s);
    assert(v@ =~= old(v)@ + s@);
}

/// The eight little-endian bytes of `x`.
pub fn le_u64(x: u64) -> (r: Vec<u8>)
    ensures
        r@ == le_bytes(x as nat, 8),
{
    let mut r: Vec<u8> = Vec::new();
    let mut rest: u64 = x;
    let mut left: u64 = 8;
    while left > 0
        invariant
            left <= 8,
            r@ + le_bytes(rest as nat, left as nat) == le_bytes(x as nat, 8),
        decreases left,
    {
        let ghost before = r@;
        r.push((rest % 256) as u8);
        assert(before + le_bytes(rest as nat, left as nat) =~= r@ + le_bytes(
            rest as nat / 256,
            (left - 1) as nat,
        ));
        rest = rest / 256;
        left = left - 1;
    }
    assert(r@ + le_bytes(rest as nat, 0) =~= r@);
    r
}

/// Whether two byte strings are equal.
pub fn same_bytes(a: &[u8], b: &[u8]) -> (same: bool)
    ensures
        same == (a@ == b@),
{
    if a.len() != b.len() {
        return false;
    }
    let mut i: usize = 0;
    while i < a.len()
        invariant
            i <= a.len(),
            a.len() == b.len(),
            a@.subrange(0, i as int) =~= b@.subrange(0, i as int),
        decreases a.len() - i,
    {
        if a[i] != b[i] {
            return false;
        }
        assert(a@.subrange(0, i + 1) =~= a@.subrange(0, i as int).push(a@[i as int]));
        assert(b@.subrange(0, i + 1) =~= b@.subrange(0, i as int).push(b@[i as int]));
        i = i + 1;
    }
    assert(a@ =~= a@.subrange(0, i as int));
    assert(b@ =~= b@.subrange(0, i as int));
    true
}

/// Each place of the bytes of a number holds what is left of it when the bytes
/// before are taken off: the least significant comes first.
pub proof fn the_least_significant_byte_comes_first(x: nat, n: nat, i: nat)
    requires
        i < n,
    ensures
        le_bytes(x, n).len() == n,
        le_bytes(x, n)[i as int] == x / byte_range(i) % 256,
        byte_range(i + 1) == 256 * byte_range(i),
        byte_range(0) == 1,
    decreases n,
{
    if i > 0 {
        let j = (i - 1) as nat;
        the_least_significant_byte_comes_first(x / 256, (n - 1) as nat, j);
        lemma_byte_range_positive(j);
        vstd::arithmetic::div_mod::lemma_div_denominator(x as int, 256, byte_range(j) as int);
        assert(le_bytes(x, n)[i as int] == le_bytes(x / 256, (n - 1) as nat)[j as int]);
    } else {
        if n > 1 {
            the_least_significant_byte_comes_first(x / 256, (n - 1) as nat, 0);
        } else {
            assert(le_bytes(x / 256, 0).len() == 0);
        }
        assert(x / 1 == x);
        assert(le_bytes(x, n)[0] == (x % 256) as u8);
    }
}

proof fn lemma_byte_range_positive(n: nat)
    ensures
        byte_range(n) > 0,
    decreases n,
{
    if n > 0 {
        lemma_byte_range_positive((n - 1) as nat);
    }
}

/// A number in network byte order has its high byte first, and is read back.
pub proof fn be_u16_reads_back(x: u16)
    ensures
        be_u16(x).len() == 2,
        be_u16(x)[0] * 256 + be_u16(x)[1] == x,
        be_value(be_u16(x)[0], be_u16(x)[1]) == x,
{
}

} // verus!

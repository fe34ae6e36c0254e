//! Frame codec for the one structured frame on the wire: the receipt, a
//! fixed-width big-endian unsigned integer holding the total number of bytes
//! the responder counted as received on a run.
//!
//! Payload bytes need no framing: they are an undelimited stream whose end is
//! signalled by the initiator's half-close, so the codec's whole job is the
//! receipt.

use vstd::prelude::*;
use vstd::arithmetic::div_mod::lemma_basic_div;
use vstd::arithmetic::div_mod::lemma_div_denominator;
use vstd::arithmetic::div_mod::lemma_fundamental_div_mod;
use vstd::arithmetic::div_mod::lemma_fundamental_div_mod_converse;
use crate::outcome::FailureReason;

verus! {

/// Width of a receipt frame on the wire: one big-endian u64.
pub const RECEIPT_LEN: usize = 8;

/// The unsigned value of a byte string read in big-endian order: the first
/// byte is the most significant.
pub open spec fn be_value(bytes: Seq<u8>) -> nat
    decreases bytes.len(),
{
    if bytes.len() == 0 {
        0
    } else {
        be_value(bytes.drop_last()) * 256 + bytes.last() as nat
    }
}

/// 256 raised to `n`: the number of distinct byte strings of length `n`.
pub open spec fn pow256(n: nat) -> nat
    decreases n,
{
    if n == 0 {
        1
    } else {
        256 * pow256((n - 1) as nat)
    }
}

/// Every power of 256 is positive.
pub proof fn lemma_pow256_pos(n: nat)
    ensures
        pow256(n) >= 1,
    decreases n,
{
    if n > 0 {
        lemma_pow256_pos((n - 1) as nat);
    }
}

/// `pow256` is monotone in the exponent.
pub proof fn lemma_pow256_mono(a: nat, b: nat)
    requires
        a <= b,
    ensures
        pow256(a) <= pow256(b),
    decreases b,
{
    if a < b {
        lemma_pow256_mono(a, (b - 1) as nat);
        lemma_pow256_pos((b - 1) as nat);
    }
}

/// The powers of 256 up to the receipt width, as literals.
pub proof fn lemma_pow256_values()
    ensures
        pow256(7) == 0x0100_0000_0000_0000,
        pow256(8) == 0x1_0000_0000_0000_0000,
{
    assert(pow256(0) == 1);
    assert(pow256(1) == 256);
    assert(pow256(2) == 0x1_0000);
    assert(pow256(3) == 0x100_0000);
    assert(pow256(4) == 0x1_0000_0000);
    assert(pow256(5) == 0x100_0000_0000);
    assert(pow256(6) == 0x1_0000_0000_0000);
    assert(pow256(7) == 0x0100_0000_0000_0000);
    assert(pow256(8) == 0x1_0000_0000_0000_0000);
}

/// A byte string of length `n` always encodes a value below 256^n; in
/// particular a full receipt's value fits in a u64.
pub proof fn lemma_be_value_bound(bytes: Seq<u8>)
    ensures
        be_value(bytes) < pow256(bytes.len()),
    decreases bytes.len(),
{
    if bytes.len() > 0 {
        lemma_be_value_bound(bytes.drop_last());
    }
}

/// Big-endian encoding is unambiguous: two byte strings of equal length with
/// the same value are the same string, so a receipt decodes to exactly the
/// count it was encoded from.
pub proof fn lemma_be_value_injective(a: Seq<u8>, b: Seq<u8>)
    requires
        a.len() == b.len(),
        be_value(a) == be_value(b),
    ensures
        a =~= b,
    decreases a.len(),
{
    if a.len() > 0 {
        let fa = a.drop_last();
        let fb = b.drop_last();
        lemma_fundamental_div_mod_converse(
            be_value(a) as int,
            256,
            be_value(fa) as int,
            a.last() as int,
        );
        lemma_fundamental_div_mod_converse(
            be_value(b) as int,
            256,
            be_value(fb) as int,
            b.last() as int,
        );
        assert(a.last() == b.last());
        assert(be_value(fa) == be_value(fb));
        lemma_be_value_injective(fa, fb);
        assert forall|i: int| 0 <= i < a.len() implies a[i] == b[i] by {
            if i < a.len() - 1 {
                assert(a[i] == fa[i]);
                assert(b[i] == fb[i]);
            }
        }
    }
}

/// Encode a receipt: the count as 8 big-endian bytes.
pub fn encode_receipt(count: u64) -> (r: Vec<u8>)
    ensures
        r@.len() == RECEIPT_LEN,
        be_value(r@) == count,
{
    let mut out: Vec<u8> = Vec::new();
    let mut div: u64 = 0x0100_0000_0000_0000;
    let mut i: usize = 0;
    proof {
        lemma_pow256_values();
        lemma_basic_div(count as int, pow256(8) as int);
    }
    while i < 8
        invariant
            i <= 8,
            out@.len() == i,
            i < 8 ==> div == pow256((7 - i) as nat),
            be_value(out@) == (count as nat) / pow256((8 - i) as nat),
        decreases 8 - i,
    {
        proof {
            lemma_pow256_pos((7 - i) as nat);
        }
        let b: u8 = ((count / div) % 256) as u8;
        proof {
            let p = pow256((7 - i) as nat) as int;
            let q = (count as int) / p;
            lemma_div_denominator(count as int, p, 256);
            lemma_fundamental_div_mod(q, 256);
            assert(out@.push(b).drop_last() =~= out@);
        }
        out.push(b);
        if i < 7 {
            div = div / 256;
            proof {
                lemma_pow256_pos((6 - i) as nat);
            }
        }
        i += 1;
    }
    proof {
        assert(pow256(0) == 1);
        assert((count as nat) / pow256(0) == count as nat);
    }
    out
}

/// Decode a receipt from the bytes read so far. Succeeds as soon as 8 bytes
/// are available, yielding the value of the first 8; fails with
/// `ProtocolViolation` exactly when fewer than 8 bytes arrived before the
/// peer closed its write side.
pub fn decode_receipt(bytes: &[u8]) -> (r: Result<u64, FailureReason>)
    ensures
        match r {
            Ok(v) => bytes@.len() >= RECEIPT_LEN && v as nat == be_value(
                bytes@.subrange(0, RECEIPT_LEN as int),
            ),
            Err(e) => e == FailureReason::ProtocolViolation && bytes@.len() < RECEIPT_LEN,
        },
{
    if bytes.len() < RECEIPT_LEN {
        return Err(FailureReason::ProtocolViolation);
    }
    let mut acc: u64 = 0;
    let mut i: usize = 0;
    while i < 8
        invariant
            i <= 8,
            bytes@.len() >= 8,
            acc as nat == be_value(bytes@.subrange(0, i as int)),
        decreases 8 - i,
    {
        proof {
            lemma_be_value_bound(bytes@.subrange(0, i as int));
            lemma_pow256_mono(i as nat, 7);
            lemma_pow256_values();
        }
        let b: u8 = bytes[i];
        proof {
            let pre = bytes@.subrange(0, i as int);
            let post = bytes@.subrange(0, (i + 1) as int);
            assert(post.drop_last() =~= pre);
            assert(post.last() == bytes@[i as int]);
        }
        acc = acc * 256 + (b as u64);
        i += 1;
    }
    proof {
        assert(bytes@.subrange(0, 8) =~= bytes@.subrange(0, RECEIPT_LEN as int));
    }
    Ok(acc)
}

} // verus!

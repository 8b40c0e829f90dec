//! Numbers as bytes.

use vstd::prelude::*;

verus! {

/// The last `width` bytes of a number, most significant first.
pub open spec fn be_bytes(n: nat, width: nat) -> Seq<u8>
    decreases width,
{
    if width == 0 {
        seq![]
    } else {
        be_bytes(n / 256, (width - 1) as nat).push((n % 256) as u8)
    }
}

/// The number that bytes denote, most significant first.
pub open spec fn be_value(bytes: Seq<u8>) -> nat
    decreases bytes.len(),
{
    if bytes.len() == 0 {
        0
    } else {
        be_value(bytes.drop_last()) * 256 + bytes.last() as nat
    }
}

/// Two hundred and fifty-six to a power.
pub open spec fn byte_power(width: nat) -> nat
    decreases width,
{
    if width == 0 {
        1
    } else {
        256 * byte_power((width - 1) as nat)
    }
}

/// A number that fits reads back from its bytes, of which there are as many as asked
/// for.
pub proof fn law_be_bytes_read_back(n: nat, width: nat)
    ensures
        be_bytes(n, width).len() == width,
        n < byte_power(width) ==> be_value(be_bytes(n, width)) == n,
    decreases width,
{
    if width > 0 {
        let w = (width - 1) as nat;
        law_be_bytes_read_back(n / 256, w);
        let b = be_bytes(n, width);
        assert(b.drop_last() =~= be_bytes(n / 256, w));
        if n < byte_power(width) {
            assert(n / 256 < byte_power(w));
        }
    }
}

/// Bytes denote a number below the power of their count.
pub proof fn lemma_be_value_bound(bytes: Seq<u8>)
    ensures
        be_value(bytes) < byte_power(bytes.len()),
    decreases bytes.len(),
{
    if bytes.len() > 0 {
        lemma_be_value_bound(bytes.drop_last());
        assert(bytes.drop_last().len() == bytes.len() - 1);
    }
}

/// Appends the last `width` bytes of a number, most significant first.
pub fn push_be(out: &mut Vec<u8>, n: u128, width: u8)
    ensures
        final(out)@ == old(out)@ + be_bytes(n as nat, width as nat),
    decreases width,
{
    if width == 0 {
        assert(out@ =~= old(out)@ + be_bytes(n as nat, 0));
        return;
    }
    push_be(out, n / 256, width - 1);
    out.push((n % 256) as u8);
    assert(out@ =~= old(out)@ + be_bytes(n as nat, width as nat));
}

/// The number that at most sixteen bytes denote, most significant first.
pub fn read_be(bytes: &[u8]) -> (n: u128)
    requires
        bytes@.len() <= 16,
    ensures
        n as nat == be_value(bytes@),
{
    let mut n: u128 = 0;
    let mut i: usize = 0;
    assert(byte_power(16) == 0x1_0000_0000_0000_0000_0000_0000_0000_0000int) by {
        reveal_with_fuel(byte_power, 17);
    }
    assert(bytes@.take(0) =~= seq![]);
    while i < bytes.len()
        invariant
            i <= bytes@.len() <= 16,
            n as nat == be_value(bytes@.take(i as int)),
            byte_power(16) == 0x1_0000_0000_0000_0000_0000_0000_0000_0000int,
        decreases bytes@.len() - i,
    {
        assert(bytes@.take(i + 1).drop_last() =~= bytes@.take(i as int));
        proof {
            lemma_be_value_bound(bytes@.take(i + 1));
            lemma_power_grows((i + 1) as nat, 16);
        }
        n = n * 256 + bytes[i] as u128;
        i += 1;
    }
    assert(bytes@.take(bytes@.len() as int) =~= bytes@);
    n
}

/// The last twelve bytes of a number, most significant first.
pub fn low_bytes(n: u128) -> (out: [u8; 12])
    ensures
        out@ == be_bytes(n as nat, 12),
{
    let mut out: [u8; 12] = [0; 12];
    let mut rest: u128 = n;
    let mut i: usize = 12;
    assert(out@.subrange(12, 12) =~= be_bytes(n as nat, 0));
    proof {
        law_be_bytes_read_back(n as nat, 12);
    }
    while i > 0
        invariant
            i <= 12,
            out@.len() == 12,
            be_bytes(n as nat, 12).len() == 12,
            be_bytes(n as nat, 12).take(i as int) == be_bytes(rest as nat, i as nat),
            forall|k: int| i <= k < 12 ==> #[trigger] out@[k] == be_bytes(n as nat, 12)[k],
        decreases i,
    {
        let ghost w = be_bytes(rest as nat, i as nat);
        proof {
            law_be_bytes_read_back(rest as nat, i as nat);
            assert(w.last() == ((rest as nat) % 256) as u8);
            assert(be_bytes(n as nat, 12).take(i as int)[i - 1] == w[i - 1]);
            assert(w.drop_last() =~= be_bytes((rest as nat) / 256, (i - 1) as nat));
            assert(be_bytes(n as nat, 12).take(i - 1) =~= w.drop_last());
        }
        i -= 1;
        out[i] = (rest % 256) as u8;
        rest = rest / 256;
    }
    assert(out@ =~= be_bytes(n as nat, 12));
    out
}

proof fn lemma_power_grows(a: nat, b: nat)
    requires
        a <= b,
    ensures
        byte_power(a) <= byte_power(b),
        byte_power(a) > 0,
    decreases b,
{
    if b > 0 {
        if a < b {
            lemma_power_grows(a, (b - 1) as nat);
        } else {
            lemma_power_grows((a - 1) as nat, (b - 1) as nat);
        }
    }
}

/// A number in groups of seven bits, least significant first, with the high bit set
/// on every group but the last.
pub open spec fn varint(n: nat) -> Seq<u8>
    decreases n,
{
    if n < 128 {
        seq![n as u8]
    } else {
        seq![(128 + n % 128) as u8] + varint(n / 128)
    }
}

/// Appends a number in groups of seven bits.
pub fn push_varint(out: &mut Vec<u8>, n: usize)
    ensures
        final(out)@ == old(out)@ + varint(n as nat),
    decreases n,
{
    if n < 128 {
        out.push(n as u8);
        assert(out@ =~= old(out)@ + varint(n as nat));
        return;
    }
    out.push((128 + n % 128) as u8);
    let ghost mid = out@;
    push_varint(out, n / 128);
    assert(out@ =~= old(out)@ + varint(n as nat));
}

} // verus!

use vstd::prelude::*;

verus! {

/// Number of bytes of the length that precedes each message.
pub const LEN_PREFIX_SIZE: usize = 8;

pub open spec fn pow256(k: nat) -> nat
    decreases k,
{
    if k == 0 {
        1
    } else {
        256 * pow256((k - 1) as nat)
    }
}

/// The number that the little-endian bytes `b` stand for.
pub open spec fn le_value(b: Seq<u8>) -> nat
    decreases b.len(),
{
    if b.len() == 0 {
        0
    } else {
        b[0] as nat + 256 * le_value(b.drop_first())
    }
}

/// The `k` lowest bytes of `n`, least significant first.
pub open spec fn le_bytes(n: nat, k: nat) -> Seq<u8>
    decreases k,
{
    if k == 0 {
        Seq::empty()
    } else {
        seq![(n % 256) as u8].add(le_bytes(n / 256, (k - 1) as nat))
    }
}

/// A frame: the length of `message` as 8 little-endian bytes, then `message`.
pub open spec fn spec_frame(message: Seq<u8>) -> Seq<u8> {
    le_bytes(message.len(), 8) + message
}

pub proof fn lemma_pow256_grows(k: nat)
    ensures
        pow256(k) >= 1,
        pow256(k + 1) == 256 * pow256(k),
    decreases k,
{
    if k > 0 {
        lemma_pow256_grows((k - 1) as nat);
    }
}

pub proof fn lemma_pow256_monotonic(a: nat, b: nat)
    requires
        a <= b,
    ensures
        pow256(a) <= pow256(b),
    decreases b - a,
{
    if a < b {
        lemma_pow256_monotonic(a, (b - 1) as nat);
        lemma_pow256_grows((b - 1) as nat);
    }
}

/// The value of `k` bytes is below `256^k`.
pub proof fn lemma_le_value_bound(b: Seq<u8>)
    ensures
        le_value(b) < pow256(b.len()),
    decreases b.len(),
{
    if b.len() > 0 {
        lemma_le_value_bound(b.drop_first());
        lemma_pow256_grows((b.len() - 1) as nat);
        let v = le_value(b.drop_first());
        let p = pow256((b.len() - 1) as nat);
        assert(b[0] as nat + 256 * v < 256 * p) by (nonlinear_arith)
            requires
                v < p,
                b[0] < 256,
        ;
    }
}

/// Reading back the `k` lowest bytes of a number below `256^k` gives the number.
pub proof fn lemma_le_round_trip(n: nat, k: nat)
    requires
        n < pow256(k),
    ensures
        le_bytes(n, k).len() == k,
        le_value(le_bytes(n, k)) == n,
    decreases k,
{
    if k > 0 {
        let p = pow256((k - 1) as nat);
        assert(n / 256 < p) by (nonlinear_arith)
            requires
                n < 256 * p,
        ;
        lemma_le_round_trip(n / 256, (k - 1) as nat);
        let b = le_bytes(n, k);
        assert(b.drop_first() =~= le_bytes(n / 256, (k - 1) as nat));
        assert(n == n % 256 + 256 * (n / 256)) by (nonlinear_arith);
    }
}

pub proof fn lemma_pow256_8()
    ensures
        pow256(8) == 0x1_0000_0000_0000_0000,
{
    reveal_with_fuel(pow256, 9);
}

/// Decoding the length prefix of a frame gives the message's length back.
pub proof fn lemma_frame_round_trip(message: Seq<u8>)
    requires
        message.len() <= u64::MAX,
    ensures
        spec_frame(message).len() == LEN_PREFIX_SIZE + message.len(),
        le_value(spec_frame(message).subrange(0, LEN_PREFIX_SIZE as int)) == message.len(),
        spec_frame(message).subrange(LEN_PREFIX_SIZE as int, spec_frame(message).len() as int)
            == message,
{
    lemma_pow256_8();
    lemma_le_round_trip(message.len(), 8);
    let f = spec_frame(message);
    assert(f.subrange(0, 8) =~= le_bytes(message.len(), 8));
    assert(f.subrange(8, f.len() as int) =~= message);
}

/// The length prefix for a message of `n` bytes.
pub fn encode_len(n: u64) -> (r: Vec<u8>)
    ensures
        r@ == le_bytes(n as nat, 8),
        le_value(r@) == n,
{
    let mut r: Vec<u8> = Vec::new();
    let mut x: u64 = n;
    let mut i: usize = 0;
    while i < 8
        invariant
            i <= 8,
            r@ + le_bytes(x as nat, (8 - i) as nat) == le_bytes(n as nat, 8),
        decreases 8 - i,
    {
        let ghost before = r@;
        r.push((x % 256) as u8);
        proof {
            let rest = le_bytes(x as nat / 256, (8 - i - 1) as nat);
            assert(le_bytes(x as nat, (8 - i) as nat) == seq![(x as nat % 256) as u8].add(rest));
            assert(r@ + rest =~= before + le_bytes(x as nat, (8 - i) as nat));
        }
        x = x / 256;
        i = i + 1;
    }
    assert(r@ =~= le_bytes(n as nat, 8));
    proof {
        lemma_pow256_8();
        lemma_le_round_trip(n as nat, 8);
    }
    r
}

/// Reads a length prefix: 8 bytes, least significant first.
pub fn decode_len(raw: &[u8]) -> (r: u64)
    requires
        raw@.len() == LEN_PREFIX_SIZE,
    ensures
        r == le_value(raw@),
{
    let mut acc: u128 = 0;
    let mut i: usize = 8;
    while i > 0
        invariant
            raw@.len() == 8,
            i <= 8,
            acc == le_value(raw@.subrange(i as int, 8)),
        decreases i,
    {
        let ghost tail = raw@.subrange(i as int, 8);
        let ghost longer = raw@.subrange(i - 1, 8);
        proof {
            assert(longer.drop_first() =~= tail);
            lemma_le_value_bound(tail);
            lemma_pow256_monotonic(tail.len(), 8);
            lemma_pow256_8();
        }
        acc = acc * 256 + raw[i - 1] as u128;
        i = i - 1;
    }
    proof {
        assert(raw@.subrange(0, 8) =~= raw@);
        lemma_le_value_bound(raw@);
        lemma_pow256_8();
    }
    acc as u64
}

/// A frame for `message`: its length as 8 little-endian bytes, then its bytes.
pub fn encode_frame(message: &[u8]) -> (r: Vec<u8>)
    requires
        message@.len() <= u64::MAX,
    ensures
        r@ == spec_frame(message@),
{
    let mut r = encode_len(message.len() as u64);
    let mut i: usize = 0;
    while i < message.len()
        invariant
            i <= message@.len(),
            r@ == le_bytes(message@.len() as nat, 8) + message@.subrange(0, i as int),
        decreases message.len() - i,
    {
        r.push(message[i]);
        proof {
            assert(message@.subrange(0, i + 1) =~= message@.subrange(0, i as int).push(message@[i as int]));
        }
        i = i + 1;
    }
    assert(message@.subrange(0, message@.len() as int) =~= message@);
    r
}

} // verus!

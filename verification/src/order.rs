//! Mining orders: which nonces a client is to try, on which challenge, and for how long.
use vstd::arithmetic::power2;
use vstd::prelude::*;

verus! {

/// The `count` lowest bytes of `x`, the lowest first.
pub open spec fn le_bytes(x: nat, count: nat) -> Seq<u8>
    decreases count,
{
    if count == 0 {
        Seq::empty()
    } else {
        seq![(x % 256) as u8] + le_bytes(x / 256, (count - 1) as nat)
    }
}

/// The number that bytes stand for, the lowest first.
pub open spec fn le_value(bytes: Seq<u8>) -> nat
    decreases bytes.len(),
{
    if bytes.len() == 0 {
        0
    } else {
        bytes[0] as nat + 256 * le_value(bytes.drop_first())
    }
}

/// 256 to the power of `count`.
pub open spec fn byte_range(count: nat) -> nat
    decreases count,
{
    if count == 0 {
        1
    } else {
        256 * byte_range((count - 1) as nat)
    }
}

/// The bytes of a number stand for that number.
pub proof fn lemma_le_round_trip(x: nat, count: nat)
    requires
        x < byte_range(count),
    ensures
        le_bytes(x, count).len() == count,
        le_value(le_bytes(x, count)) == x,
    decreases count,
{
    if count > 0 {
        lemma_le_round_trip(x / 256, (count - 1) as nat);
        assert(le_bytes(x, count).drop_first() =~= le_bytes(x / 256, (count - 1) as nat));
    }
}

/// A `u32` is written in four bytes.
pub proof fn lemma_u32_range()
    ensures
        byte_range(4) == u32::MAX + 1,
{
    reveal_with_fuel(byte_range, 5);
}

/// A `u64` is written in eight bytes.
pub proof fn lemma_u64_range()
    ensures
        byte_range(8) == u64::MAX + 1,
{
    reveal_with_fuel(byte_range, 9);
}

/// A number is written in as many bytes as it is said to be.
pub proof fn lemma_le_len(x: nat, count: nat)
    ensures
        le_bytes(x, count).len() == count,
    decreases count,
{
    if count > 0 {
        lemma_le_len(x / 256, (count - 1) as nat);
    }
}

/// Puts the eight bytes of `x` behind the others, the lowest first.
fn push_u64(out: &mut Vec<u8>, x: u64)
    ensures
        final(out)@ == old(out)@ + le_bytes(x as nat, 8),
{
    let mut rest: u64 = x;
    let mut i: usize = 0;
    while i < 8
        invariant
            i <= 8,
            old(out)@ + le_bytes(x as nat, 8) == out@ + le_bytes(rest as nat, (8 - i) as nat),
        decreases 8 - i,
    {
        let ghost before = out@;
        let ghost left = rest as nat;
        out.push((rest % 256) as u8);
        proof {
            let byte = seq![(left % 256) as u8];
            let tail = le_bytes(left / 256, (7 - i) as nat);
            assert(out@ =~= before + byte);
            assert(before + (byte + tail) =~= (before + byte) + tail);
        }
        rest = rest / 256;
        i = i + 1;
    }
    assert(out@ + le_bytes(rest as nat, 0) =~= out@);
}

/// The first byte of a mining order.
pub const START_MINING: u8 = 0;

/// The length of a mining order in bytes.
pub const ORDER_LEN: usize = 57;

/// A mining order: try the nonces from `start` up to but not with `end` on the challenge, and
/// answer within `cutoff` seconds.
#[derive(Clone, Copy, Debug, PartialEq, Eq)]
pub struct MiningOrder {
    pub challenge: [u8; 32],
    pub cutoff: u64,
    pub start: u64,
    pub end: u64,
}

/// The bytes of a mining order: its type, the challenge, and then the cutoff and the two ends of
/// the nonce range, in eight bytes each, the lowest first.
pub open spec fn order_bytes(order: MiningOrder) -> Seq<u8> {
    seq![START_MINING] + order.challenge@ + le_bytes(order.cutoff as nat, 8) + le_bytes(
        order.start as nat,
        8,
    ) + le_bytes(order.end as nat, 8)
}

impl MiningOrder {
    /// Writes the order as bytes.
    pub fn to_bytes(&self) -> (r: Vec<u8>)
        ensures
            r@ == order_bytes(*self),
            r@.len() == ORDER_LEN,
            r@.len() == 57,
            r@[0] == 0,
            forall|j: int| 1 <= j < 33 ==> #[trigger] r@[j] == self.challenge@[j - 1],
            forall|j: int|
                33 <= j < 41 ==> #[trigger] r@[j] == (self.cutoff as nat / power2::pow2(
                    (8 * (j - 33)) as nat,
                )) % 256,
            forall|j: int|
                41 <= j < 49 ==> #[trigger] r@[j] == (self.start as nat / power2::pow2(
                    (8 * (j - 41)) as nat,
                )) % 256,
            forall|j: int|
                49 <= j < 57 ==> #[trigger] r@[j] == (self.end as nat / power2::pow2(
                    (8 * (j - 49)) as nat,
                )) % 256,
    {
        let mut r: Vec<u8> = Vec::new();
        r.push(START_MINING);
        let mut i: usize = 0;
        assert(r@ =~= seq![START_MINING] + self.challenge@.subrange(0, 0));
        while i < 32
            invariant
                i <= 32,
                r@ == seq![START_MINING] + self.challenge@.subrange(0, i as int),
            decreases 32 - i,
        {
            r.push(self.challenge[i]);
            i = i + 1;
            assert(r@ =~= seq![START_MINING] + self.challenge@.subrange(0, i as int));
        }
        assert(self.challenge@.subrange(0, 32) =~= self.challenge@);
        push_u64(&mut r, self.cutoff);
        push_u64(&mut r, self.start);
        push_u64(&mut r, self.end);
        proof {
            lemma_le_len(self.cutoff as nat, 8);
            lemma_le_len(self.start as nat, 8);
            lemma_le_len(self.end as nat, 8);
            law_order_layout(*self);
        }
        r
    }
}

/// Byte `k` of a number is its digit of weight 256 to the power of `k`.
pub proof fn law_number_bytes(x: nat, count: nat, k: int)
    requires
        0 <= k < count,
    ensures
        le_bytes(x, count).len() == count,
        le_bytes(x, count)[k] == (x / power2::pow2((8 * k) as nat)) % 256,
    decreases count,
{
    lemma_le_len(x, count);
    power2::lemma2_to64();
    if k > 0 {
        let rest = le_bytes(x / 256, (count - 1) as nat);
        law_number_bytes(x / 256, (count - 1) as nat, k - 1);
        assert(le_bytes(x, count)[k] == rest[k - 1]);
        let low = power2::pow2((8 * (k - 1)) as nat);
        power2::lemma_pow2_pos((8 * (k - 1)) as nat);
        power2::lemma_pow2_adds(8, (8 * (k - 1)) as nat);
        vstd::arithmetic::div_mod::lemma_div_denominator(x as int, 256, low as int);
    } else {
        assert(x / 1 == x);
    }
}

/// Where everything stands in the bytes of an order: a zero, the challenge, and then the cutoff and
/// the two ends of the nonce range, each byte of them a digit to the base of 256, the lowest first.
pub proof fn law_order_layout(order: MiningOrder)
    ensures
        ({
            let r = order_bytes(order);
            &&& r.len() == 57
            &&& r[0] == 0
            &&& forall|j: int| 1 <= j < 33 ==> #[trigger] r[j] == order.challenge@[j - 1]
            &&& forall|j: int|
                33 <= j < 41 ==> #[trigger] r[j] == (order.cutoff as nat / power2::pow2(
                    (8 * (j - 33)) as nat,
                )) % 256
            &&& forall|j: int|
                41 <= j < 49 ==> #[trigger] r[j] == (order.start as nat / power2::pow2(
                    (8 * (j - 41)) as nat,
                )) % 256
            &&& forall|j: int|
                49 <= j < 57 ==> #[trigger] r[j] == (order.end as nat / power2::pow2(
                    (8 * (j - 49)) as nat,
                )) % 256
        }),
{
    let r = order_bytes(order);
    lemma_le_len(order.cutoff as nat, 8);
    lemma_le_len(order.start as nat, 8);
    lemma_le_len(order.end as nat, 8);
    assert forall|j: int| 33 <= j < 41 implies #[trigger] r[j] == (order.cutoff as nat
        / power2::pow2((8 * (j - 33)) as nat)) % 256 by {
        law_number_bytes(order.cutoff as nat, 8, j - 33);
    }
    assert forall|j: int| 41 <= j < 49 implies #[trigger] r[j] == (order.start as nat
        / power2::pow2((8 * (j - 41)) as nat)) % 256 by {
        law_number_bytes(order.start as nat, 8, j - 41);
    }
    assert forall|j: int| 49 <= j < 57 implies #[trigger] r[j] == (order.end as nat
        / power2::pow2((8 * (j - 49)) as nat)) % 256 by {
        law_number_bytes(order.end as nat, 8, j - 49);
    }
}

/// A client reads from the bytes of an order the very order that was written: its type at byte 0,
/// the challenge at 1, the cutoff at 33, and the nonce range at 41 and 49.
pub proof fn law_order_read_back(order: MiningOrder)
    ensures
        ({
            let bytes = order_bytes(order);
            &&& bytes.len() == ORDER_LEN
            &&& bytes[0] == START_MINING
            &&& bytes.subrange(1, 33) == order.challenge@
            &&& le_value(bytes.subrange(33, 41)) == order.cutoff
            &&& le_value(bytes.subrange(41, 49)) == order.start
            &&& le_value(bytes.subrange(49, 57)) == order.end
        }),
{
    let bytes = order_bytes(order);
    lemma_u64_range();
    lemma_le_round_trip(order.cutoff as nat, 8);
    lemma_le_round_trip(order.start as nat, 8);
    lemma_le_round_trip(order.end as nat, 8);
    assert(bytes.subrange(1, 33) =~= order.challenge@);
    assert(bytes.subrange(33, 41) =~= le_bytes(order.cutoff as nat, 8));
    assert(bytes.subrange(41, 49) =~= le_bytes(order.start as nat, 8));
    assert(bytes.subrange(49, 57) =~= le_bytes(order.end as nat, 8));
}

} // verus!

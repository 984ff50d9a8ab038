//! Solutions of the mining puzzle, how they are judged, and the best one so far.
use vstd::arithmetic::power2;
use vstd::prelude::*;

verus! {

/// The lowest difficulty that counts.
pub const MIN_DIFF: u32 = 8;

/// The highest difficulty that a solution can reach: all the bits of its hash are zero.
pub const MAX_DIFF: u32 = 256;

/// The hashpower that a solution of the lowest difficulty stands for.
pub const MIN_HASHPOWER: u64 = 5;

/// A candidate solution: an Equi-X digest and the nonce that it was found with.
#[derive(Clone, Copy, Debug, PartialEq, Eq)]
pub struct Solution {
    pub digest: [u8; 16],
    pub nonce: [u8; 8],
}

/// What `drillx::Solution::is_valid` returns for a digest, a nonce and a challenge.
pub uninterp spec fn equix_accepts(digest: Seq<u8>, nonce: Seq<u8>, challenge: Seq<u8>) -> bool;

/// The `h` field of what `drillx::Solution::to_hash` returns for a digest and a nonce.
pub uninterp spec fn keccak_of_sorted(digest: Seq<u8>, nonce: Seq<u8>) -> [u8; 32];

/// Calls `drillx::Solution::is_valid`, which checks with Equi-X that the digest solves the puzzle
/// made of the challenge and the nonce. Claims that the answer depends on these three alone.
#[verifier::external_body]
fn equix_is_valid(solution: &Solution, challenge: &[u8; 32]) -> (valid: bool)
    ensures
        valid == equix_accepts(solution.digest@, solution.nonce@, challenge@),
{
    drillx::Solution::new(solution.digest, solution.nonce).is_valid(challenge)
}

/// Calls `drillx::Solution::to_hash`, the Keccak hash of the digest, sorted as 16-bit words of the
/// machine's byte order (little-endian wherever the pool runs), and the nonce. Claims that the
/// 32 bytes depend on the two alone.
#[verifier::external_body]
fn solution_hash(solution: &Solution) -> (hash: [u8; 32])
    ensures
        hash == keccak_of_sorted(solution.digest@, solution.nonce@),
{
    drillx::Solution::new(solution.digest, solution.nonce).to_hash().h
}

/// The number of zero bits in front of the first one bit.
pub open spec fn leading_zero_bits(bytes: Seq<u8>) -> nat
    decreases bytes.len(),
{
    if bytes.len() == 0 {
        0
    } else if bytes[0] == 0 {
        8 + leading_zero_bits(bytes.drop_first())
    } else {
        vstd::std_specs::bits::u8_leading_zeros(bytes[0]) as nat
    }
}

/// Calls `drillx::Hash::difficulty`. Claims that it counts the leading zero bits of the `h` field
/// (the digest beside it plays no part).
#[verifier::external_body]
fn hash_difficulty(hash: [u8; 32]) -> (difficulty: u32)
    ensures
        difficulty == leading_zero_bits(hash@),
{
    drillx::Hash { d: [0; 16], h: hash }.difficulty()
}

impl Solution {
    /// Whether the solution solves the challenge.
    pub open spec fn solves(&self, challenge: Seq<u8>) -> bool {
        equix_accepts(self.digest@, self.nonce@, challenge)
    }

    /// The difficulty that the solution reaches.
    pub open spec fn difficulty(&self) -> nat {
        leading_zero_bits(keccak_of_sorted(self.digest@, self.nonce@)@)
    }

    /// Makes a solution of its two parts.
    pub fn new(digest: [u8; 16], nonce: [u8; 8]) -> (r: Solution)
        ensures
            r.digest == digest,
            r.nonce == nonce,
    {
        Solution { digest, nonce }
    }

    /// Tells whether the solution solves the challenge.
    pub fn is_valid(&self, challenge: &[u8; 32]) -> (valid: bool)
        ensures
            valid == self.solves(challenge@),
            valid == equix_accepts(self.digest@, self.nonce@, challenge@),
    {
        equix_is_valid(self, challenge)
    }

    /// Computes the difficulty that the solution reaches.
    pub fn reached_difficulty(&self) -> (difficulty: u32)
        ensures
            difficulty == self.difficulty(),
            difficulty <= MAX_DIFF,
            ({
                let hash = keccak_of_sorted(self.digest@, self.nonce@)@;
                &&& difficulty <= 256
                &&& forall|i: int| 0 <= i < difficulty as int / 8 ==> #[trigger] hash[i] == 0
                &&& difficulty < 256 ==> 128 <= hash[difficulty as int / 8] * power2::pow2(
                    (difficulty % 8) as nat,
                ) < 256
            }),
            forall|n: int|
                0 <= n <= 256 ==> (n <= difficulty <==> #[trigger] first_bits_zero(
                    keccak_of_sorted(self.digest@, self.nonce@)@,
                    n,
                )),
    {
        proof {
            law_difficulty_bound(*self);
            law_difficulty_counts_bits(*self);
            assert forall|n: int| 0 <= n <= 256 implies (n <= self.difficulty()
                <==> #[trigger] first_bits_zero(
                keccak_of_sorted(self.digest@, self.nonce@)@,
                n,
            )) by {
                law_difficulty_is_leading_bits(*self, n);
            }
        }
        hash_difficulty(solution_hash(self))
    }
}

/// No more bits are counted than there are.
proof fn lemma_zero_bits_bound(bytes: Seq<u8>)
    ensures
        leading_zero_bits(bytes) <= 8 * bytes.len(),
    decreases bytes.len(),
{
    if bytes.len() > 0 {
        vstd::std_specs::bits::axiom_u8_leading_zeros(bytes[0]);
        lemma_zero_bits_bound(bytes.drop_first());
    }
}

/// No solution reaches a difficulty above 256.
pub proof fn law_difficulty_bound(solution: Solution)
    ensures
        solution.difficulty() <= MAX_DIFF,
{
    lemma_zero_bits_bound(keccak_of_sorted(solution.digest@, solution.nonce@)@);
}

/// The bit at place `i` of a string of bytes, the highest bit of each byte first.
pub open spec fn bit_at(bytes: Seq<u8>, i: int) -> u8 {
    (bytes[i / 8] >> ((7 - i % 8) as u8)) & 1u8
}

/// Whether the first `n` bits of a string of bytes are zero.
pub open spec fn first_bits_zero(bytes: Seq<u8>, n: int) -> bool {
    forall|i: int| 0 <= i < n ==> #[trigger] bit_at(bytes, i) == 0
}

/// What a byte with so many leading zero bits looks like.
proof fn lemma_leading_zeros(b: u8)
    requires
        b != 0,
    ensures
        ({
            let k = vstd::std_specs::bits::u8_leading_zeros(b);
            &&& k < 8
            &&& 128 <= b * power2::pow2(k as nat) < 256
            &&& forall|j: u8| j < k ==> #[trigger] (b >> ((7 - j) as u8)) & 1u8 == 0u8
            &&& (b >> ((7 - k) as u8)) & 1u8 != 0u8
        }),
{
    let k = vstd::std_specs::bits::u8_leading_zeros(b);
    vstd::std_specs::bits::axiom_u8_leading_zeros(b);
    let k8 = k as u8;
    let k32 = k as u32;
    let b32 = b as u32;
    let m7 = (7 - k8) as u8;
    let m8 = (8 - k8) as u8;
    assert((b32 << k32) >= 128 && (b32 << k32) < 256) by (bit_vector)
        requires
            k8 < 8,
            k32 == k8,
            b32 == b,
            m7 == 7 - k8,
            m8 == 8 - k8,
            (b >> m7) & 1u8 != 0u8,
            b >> m8 == 0,
    ;
    vstd::arithmetic::power2::lemma2_to64();
    if k > 0 {
        vstd::arithmetic::power2::lemma_pow2_strictly_increases(k as nat, 8);
    }
    assert(b32 * power2::pow2(k32 as nat) <= 255 * 256) by (nonlinear_arith)
        requires
            b32 <= 255,
            power2::pow2(k32 as nat) <= 256,
    ;
    vstd::bits::lemma_u32_shl_is_mul(b32, k32);
    assert forall|j: u8| j < k implies #[trigger] (b >> ((7 - j) as u8)) & 1u8 == 0u8 by {
        let m = (7 - j) as u8;
        assert(8 - k <= m < 8);
        assert((b >> m) & 1u8 == 0u8);
    }
}

/// The leading zero bits of a string of bytes: whole bytes of zero, and then as many as bring the
/// next byte to 128 or more when it is doubled that often.
proof fn lemma_zero_bits(bytes: Seq<u8>)
    ensures
        ({
            let d = leading_zero_bits(bytes) as int;
            &&& d <= 8 * bytes.len()
            &&& forall|i: int| 0 <= i < d / 8 ==> #[trigger] bytes[i] == 0
            &&& d < 8 * bytes.len() ==> {
                &&& 128 <= bytes[d / 8] * power2::pow2((d % 8) as nat) < 256
                &&& forall|i: int| 0 <= i < d ==> #[trigger] bit_at(bytes, i) == 0
                &&& bit_at(bytes, d) != 0
            }
        }),
    decreases bytes.len(),
{
    lemma_zero_bits_bound(bytes);
    let d = leading_zero_bits(bytes) as int;
    if bytes.len() > 0 {
        let rest = bytes.drop_first();
        if bytes[0] == 0 {
            lemma_zero_bits(rest);
            let e = leading_zero_bits(rest) as int;
            assert(d == 8 + e && d / 8 == 1 + e / 8 && d % 8 == e % 8);
            assert forall|i: int| 0 <= i < d / 8 implies #[trigger] bytes[i] == 0 by {
                if i > 0 {
                    assert(rest[i - 1] == bytes[i]);
                }
            }
            if d < 8 * bytes.len() {
                assert(rest[e / 8] == bytes[d / 8]);
                assert forall|i: int| 0 <= i < d implies #[trigger] bit_at(bytes, i) == 0 by {
                    if i < 8 {
                        let m = (7 - i % 8) as u8;
                        assert((0u8 >> m) & 1u8 == 0u8) by (bit_vector);
                    } else {
                        assert(bit_at(rest, i - 8) == 0);
                        assert((i - 8) / 8 == i / 8 - 1 && (i - 8) % 8 == i % 8);
                        assert(rest[(i - 8) / 8] == bytes[i / 8]);
                    }
                }
                assert(bit_at(rest, e) != 0);
            }
        } else {
            lemma_leading_zeros(bytes[0]);
            let b = bytes[0];
            assert(d / 8 == 0 && d % 8 == d);
            assert forall|i: int| 0 <= i < d implies #[trigger] bit_at(bytes, i) == 0 by {
                let j = i as u8;
                assert(i / 8 == 0 && i % 8 == i);
                assert((b >> ((7 - j) as u8)) & 1u8 == 0u8);
            }
        }
    }
}

/// The difficulty of a solution counts the zero bits in front of its hash: so many whole bytes are
/// zero, and the next one reaches 128 when it is doubled for every further bit, and not before.
pub proof fn law_difficulty_counts_bits(solution: Solution)
    ensures
        ({
            let hash = keccak_of_sorted(solution.digest@, solution.nonce@)@;
            let d = solution.difficulty() as int;
            &&& d <= 256
            &&& forall|i: int| 0 <= i < d / 8 ==> #[trigger] hash[i] == 0
            &&& d < 256 ==> 128 <= hash[d / 8] * power2::pow2((d % 8) as nat) < 256
        }),
{
    lemma_zero_bits(keccak_of_sorted(solution.digest@, solution.nonce@)@);
}

/// A solution reaches a difficulty exactly if that many bits in front of its hash are zero.
pub proof fn law_difficulty_is_leading_bits(solution: Solution, n: int)
    requires
        0 <= n <= 256,
    ensures
        n <= solution.difficulty() <==> forall|i: int|
            0 <= i < n ==> #[trigger] bit_at(
                keccak_of_sorted(solution.digest@, solution.nonce@)@,
                i,
            ) == 0,
{
    let hash = keccak_of_sorted(solution.digest@, solution.nonce@)@;
    let d = solution.difficulty() as int;
    lemma_zero_bits(hash);
    if d == 256 {
        assert forall|i: int| 0 <= i < n implies #[trigger] bit_at(hash, i) == 0 by {
            let m = (7 - i % 8) as u8;
            assert(hash[i / 8] == 0);
            assert((0u8 >> m) & 1u8 == 0u8) by (bit_vector);
        }
    } else if n > d {
        assert(bit_at(hash, d) != 0);
    }
}

/// The hashpower that a solution of the given difficulty stands for.
pub open spec fn hashpower_of(difficulty: nat) -> nat {
    MIN_HASHPOWER as nat * vstd::arithmetic::power2::pow2((difficulty - MIN_DIFF) as nat)
}

/// The hashpower as a `u64`, if it is one.
pub open spec fn hashpower_in_range(difficulty: nat) -> Option<u64> {
    if hashpower_of(difficulty) <= u64::MAX {
        Some(hashpower_of(difficulty) as u64)
    } else {
        None
    }
}

/// Computes the hashpower that a solution of the given difficulty stands for, if it fits in
/// 64 bits.
pub fn hashpower(difficulty: u32) -> (r: Option<u64>)
    requires
        difficulty >= MIN_DIFF,
    ensures
        r == hashpower_in_range(difficulty as nat),
        r matches Some(power) ==> power == 5 * power2::pow2((difficulty - 8) as nat),
        r is None <==> 5 * power2::pow2((difficulty - 8) as nat) > u64::MAX,
{
    let bits: u32 = difficulty - MIN_DIFF;
    let mut power: u64 = MIN_HASHPOWER;
    let mut i: u32 = 0;
    proof {
        vstd::arithmetic::power2::lemma2_to64();
    }
    while i < bits
        invariant
            i <= bits,
            bits == difficulty - MIN_DIFF,
            power == MIN_HASHPOWER * vstd::arithmetic::power2::pow2(i as nat),
        decreases bits - i,
    {
        proof {
            vstd::arithmetic::power2::lemma_pow2_unfold((i + 1) as nat);
            if i + 1 < bits {
                vstd::arithmetic::power2::lemma_pow2_strictly_increases(
                    (i + 1) as nat,
                    bits as nat,
                );
            }
        }
        if power > u64::MAX / 2 {
            return None;
        }
        power = power * 2;
        i = i + 1;
    }
    Some(power)
}

/// Each further bit of difficulty doubles the hashpower, from 5 at the lowest difficulty on.
pub proof fn law_hashpower_doubles(difficulty: nat)
    requires
        difficulty >= MIN_DIFF,
    ensures
        hashpower_of(MIN_DIFF as nat) == MIN_HASHPOWER,
        hashpower_of(difficulty + 1) == 2 * hashpower_of(difficulty),
{
    vstd::arithmetic::power2::lemma2_to64();
    vstd::arithmetic::power2::lemma_pow2_unfold((difficulty + 1 - MIN_DIFF) as nat);
}

/// The best solution that the clients have found for the current challenge.
#[derive(Clone, Copy, Debug, PartialEq, Eq)]
pub struct BestHash {
    pub solution: Option<Solution>,
    pub difficulty: u32,
}

/// What became of a solution that a client sent in.
#[derive(Clone, Copy, Debug, PartialEq, Eq)]
pub enum Verdict {
    /// It does not solve the challenge.
    Invalid,
    /// It does, at a difficulty that does not count.
    TooLow { difficulty: u32 },
    /// It counts, as so much hashpower (none is given where that exceeds 64 bits).
    Accepted { difficulty: u32, hashpower: Option<u64> },
}

/// Whether a solution counts.
pub open spec fn counts(valid: bool, difficulty: nat) -> bool {
    valid && difficulty >= MIN_DIFF
}

/// The verdict on a solution.
pub open spec fn verdict_on(valid: bool, difficulty: u32) -> Verdict {
    if !valid {
        Verdict::Invalid
    } else if difficulty < MIN_DIFF {
        Verdict::TooLow { difficulty }
    } else {
        Verdict::Accepted { difficulty, hashpower: hashpower_in_range(difficulty as nat) }
    }
}

impl BestHash {
    /// No solution yet.
    pub open spec fn none() -> BestHash {
        BestHash { solution: None, difficulty: 0 }
    }

    /// What the best one is after a further solution: that one, if it counts and is harder.
    pub open spec fn after(self, solution: Solution, valid: bool, difficulty: u32) -> BestHash {
        if counts(valid, difficulty as nat) && difficulty > self.difficulty {
            BestHash { solution: Some(solution), difficulty }
        } else {
            self
        }
    }

    /// The difficulty is that of the solution, which counts; without a solution it is zero.
    pub open spec fn consistent(self) -> bool {
        match self.solution {
            Some(solution) => {
                &&& self.difficulty == solution.difficulty()
                &&& self.difficulty >= MIN_DIFF
            },
            None => self.difficulty == 0,
        }
    }

    /// No solution yet.
    pub fn new() -> (r: BestHash)
        ensures
            r == BestHash::none(),
            r.solution is None,
            r.difficulty == 0,
            r.consistent(),
    {
        BestHash { solution: None, difficulty: 0 }
    }

    /// Forgets the solution.
    pub fn clear(&mut self)
        ensures
            *final(self) == BestHash::none(),
            final(self).solution is None,
            final(self).difficulty == 0,
    {
        self.solution = None;
        self.difficulty = 0;
    }

    /// Takes note of a solution of which it is known whether it is valid and how difficult it is,
    /// and says what became of it.
    pub fn record(&mut self, solution: Solution, valid: bool, difficulty: u32) -> (r: Verdict)
        ensures
            r == verdict_on(valid, difficulty),
            *final(self) == old(self).after(solution, valid, difficulty),
            !valid ==> r is Invalid && *final(self) == *old(self),
            valid && difficulty < 8 ==> {
                &&& r matches Verdict::TooLow { difficulty: told } && told == difficulty
                &&& *final(self) == *old(self)
            },
            valid && difficulty >= 8 ==> {
                &&& r matches Verdict::Accepted { difficulty: told, hashpower: power } && {
                    &&& told == difficulty
                    &&& power matches Some(p) ==> p == 5 * power2::pow2((difficulty - 8) as nat)
                    &&& power is None <==> 5 * power2::pow2((difficulty - 8) as nat) > u64::MAX
                }
                &&& difficulty > old(self).difficulty ==> final(self).solution == Some(solution)
                    && final(self).difficulty == difficulty
                &&& difficulty <= old(self).difficulty ==> *final(self) == *old(self)
            },
    {
        if !valid {
            Verdict::Invalid
        } else if difficulty >= MIN_DIFF {
            if difficulty > self.difficulty {
                self.difficulty = difficulty;
                self.solution = Some(solution);
            }
            Verdict::Accepted { difficulty, hashpower: hashpower(difficulty) }
        } else {
            Verdict::TooLow { difficulty }
        }
    }

    /// Checks a solution against the challenge and takes note of it.
    pub fn submit(&mut self, solution: Solution, challenge: &[u8; 32]) -> (r: Verdict)
        ensures
            r == verdict_on(solution.solves(challenge@), solution.difficulty() as u32),
            *final(self) == old(self).after(
                solution,
                solution.solves(challenge@),
                solution.difficulty() as u32,
            ),
            solution.difficulty() <= MAX_DIFF,
            !equix_accepts(solution.digest@, solution.nonce@, challenge@) ==> r is Invalid && *final(self) == *old(self),
            equix_accepts(solution.digest@, solution.nonce@, challenge@) && solution.difficulty() < 8 ==> {
                &&& r matches Verdict::TooLow { difficulty: told } && told == solution.difficulty()
                &&& *final(self) == *old(self)
            },
            equix_accepts(solution.digest@, solution.nonce@, challenge@) && solution.difficulty() >= 8 ==> {
                &&& r matches Verdict::Accepted { difficulty: told, hashpower: power } && {
                    &&& told == solution.difficulty()
                    &&& power matches Some(p) ==> p == 5 * power2::pow2((solution.difficulty() - 8) as nat)
                    &&& power is None <==> 5 * power2::pow2((solution.difficulty() - 8) as nat) > u64::MAX
                }
                &&& solution.difficulty() > old(self).difficulty ==> final(self).solution == Some(solution)
                    && final(self).difficulty == solution.difficulty()
                &&& solution.difficulty() <= old(self).difficulty ==> *final(self) == *old(self)
            },
            old(self).consistent() ==> final(self).consistent(),
    {
        proof {
            law_difficulty_bound(solution);
        }
        if solution.is_valid(challenge) {
            let difficulty: u32 = solution.reached_difficulty();
            self.record(solution, true, difficulty)
        } else {
            self.record(solution, false, 0)
        }
    }
}

/// What becomes of a solution: an invalid one and one of a difficulty below 8 change nothing; any
/// other is accepted at its difficulty, and becomes the best one exactly if it is harder.
pub proof fn law_judgement(best: BestHash, solution: Solution, valid: bool, difficulty: u32)
    ensures
        !valid ==> verdict_on(valid, difficulty) is Invalid,
        valid && difficulty < 8 ==> verdict_on(valid, difficulty) == (Verdict::TooLow {
            difficulty,
        }),
        valid && difficulty >= 8 ==> verdict_on(valid, difficulty) is Accepted && verdict_on(
            valid,
            difficulty,
        )->Accepted_difficulty == difficulty,
        ({
            let after = best.after(solution, valid, difficulty);
            if valid && difficulty >= 8 && difficulty > best.difficulty {
                after.solution == Some(solution) && after.difficulty == difficulty
            } else {
                after == best
            }
        }),
{
}

/// A solution that was sent in, with the outcome of its check.
#[derive(Clone, Copy, Debug, PartialEq, Eq)]
pub struct Checked {
    pub solution: Solution,
    pub valid: bool,
    pub difficulty: u32,
}

/// The best one after a series of solutions.
pub open spec fn best_of(start: BestHash, series: Seq<Checked>) -> BestHash
    decreases series.len(),
{
    if series.len() == 0 {
        start
    } else {
        let last = series.last();
        best_of(start, series.drop_last()).after(last.solution, last.valid, last.difficulty)
    }
}

/// Whether a solution of the series is the first that counts and has the given difficulty,
/// with none harder before it.
pub open spec fn first_with(series: Seq<Checked>, i: int, best: BestHash) -> bool {
    &&& 0 <= i < series.len()
    &&& counts(series[i].valid, series[i].difficulty as nat)
    &&& best.solution == Some(series[i].solution)
    &&& best.difficulty == series[i].difficulty
    &&& forall|j: int|
        0 <= j < i && counts((#[trigger] series[j]).valid, series[j].difficulty as nat)
            ==> series[j].difficulty < best.difficulty
}

/// Whatever the best one was before, after any series of solutions it is no easier, and no
/// solution of the series that counts is harder. It is the same as before, or else the hardest of
/// the series, and of several equally hard ones the first.
pub proof fn law_best_is_hardest(start: BestHash, series: Seq<Checked>)
    ensures
        ({
            let best = best_of(start, series);
            &&& start.difficulty <= best.difficulty
            &&& forall|i: int|
                0 <= i < series.len() && counts(
                    (#[trigger] series[i]).valid,
                    series[i].difficulty as nat,
                ) ==> series[i].difficulty <= best.difficulty
            &&& best == start || {
                &&& start.difficulty < best.difficulty
                &&& exists|i: int| #[trigger] first_with(series, i, best)
            }
        }),
    decreases series.len(),
{
    if series.len() > 0 {
        let front = series.drop_last();
        law_best_is_hardest(start, front);
        let before = best_of(start, front);
        let best = best_of(start, series);
        let last = series.len() - 1;
        assert forall|i: int|
            0 <= i < series.len() && counts(
                (#[trigger] series[i]).valid,
                series[i].difficulty as nat,
            ) implies series[i].difficulty <= best.difficulty by {
            if i < last {
                assert(front[i] == series[i]);
            }
        }
        if best != before {
            assert forall|j: int|
                0 <= j < last && counts(
                    (#[trigger] series[j]).valid,
                    series[j].difficulty as nat,
                ) implies series[j].difficulty < best.difficulty by {
                assert(front[j] == series[j]);
            }
            assert(first_with(series, last, best));
        } else if best != start {
            let i = choose|i: int| #[trigger] first_with(front, i, before);
            assert forall|j: int|
                0 <= j < i && counts(
                    (#[trigger] series[j]).valid,
                    series[j].difficulty as nat,
                ) implies series[j].difficulty < best.difficulty by {
                assert(front[j] == series[j]);
            }
            assert(first_with(series, i, best));
        }
    }
}

/// The difficulty of the best one does not depend on the order in which the solutions come: only
/// which of several equally hard ones is kept does.
pub proof fn law_best_ignores_order(start: BestHash, a: Seq<Checked>, b: Seq<Checked>)
    requires
        a.to_multiset() == b.to_multiset(),
    ensures
        best_of(start, a).difficulty == best_of(start, b).difficulty,
        best_of(start, a) == start <==> best_of(start, b) == start,
{
    lemma_best_no_easier(start, a, b);
    lemma_best_no_easier(start, b, a);
}

/// Where every solution of one series occurs in another, the best one of the other is no easier.
proof fn lemma_best_no_easier(start: BestHash, a: Seq<Checked>, b: Seq<Checked>)
    requires
        a.to_multiset() == b.to_multiset(),
    ensures
        best_of(start, a).difficulty <= best_of(start, b).difficulty,
        best_of(start, a) != start ==> best_of(start, b) != start,
{
    law_best_is_hardest(start, a);
    law_best_is_hardest(start, b);
    let best = best_of(start, a);
    if best != start {
        let i = choose|i: int| #[trigger] first_with(a, i, best);
        a.to_multiset_ensures();
        b.to_multiset_ensures();
        assert(a.contains(a[i]));
        assert(b.to_multiset().count(a[i]) > 0);
        let j = b.index_of(a[i]);
        assert(counts(b[j].valid, b[j].difficulty as nat));
    }
}

} // verus!

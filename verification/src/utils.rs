//! Deterministic pseudo-random shuffling for play queues.
//!
//! The generator is a multiplicative linear congruential generator with
//! multiplier 48271 and modulus 2^31 - 1 (the classic "minimal standard"
//! parameterization).  A swap partner for position `i` in a sequence of
//! length `n` is drawn by reducing the generator's state modulo `n - i`,
//! so every partner lies in `[i, n - 1]` as a Knuth (Fisher-Yates)
//! shuffle requires.  The generator exists for portability, not for
//! cryptographic quality.
use vstd::prelude::*;

verus! {

use vstd::pervasive::VecAdditionalExecFns;
use vstd::seq_lib::to_multiset_update;
use vstd::seq_lib::group_to_multiset_ensures;

/// Modulus of the linear congruential generator: 2^31 - 1.
pub const LCG_M: u32 = 2147483647;

/// Multiplier of the linear congruential generator.
pub const LCG_A: u32 = 48271;

/// Seed used when the wall clock cannot be read.
pub const LCG_FALLBACK_SEED: u64 = 69696969;

/// Ten to the `n`.
pub open spec fn pow10(n: nat) -> nat
    decreases n,
{
    if n == 0 {
        1
    } else {
        10 * pow10((n - 1) as nat)
    }
}

pub proof fn lemma_pow10_mono(a: nat, b: nat)
    requires
        a <= b,
    ensures
        pow10(a) <= pow10(b),
    decreases b,
{
    if a < b {
        lemma_pow10_mono(a, (b - 1) as nat);
        assert(pow10(b) == 10 * pow10((b - 1) as nat));
    }
}

/// One step of the generator: `state' = (LCG_A * state) mod LCG_M`.
pub open spec fn lcg_next(state: u32) -> u32 {
    ((LCG_A as int * state as int) % (LCG_M as int)) as u32
}

/// The two positions `i` and `j` of `s` exchanged.
pub open spec fn seq_swap<A>(s: Seq<A>, i: int, j: int) -> Seq<A> {
    s.update(i, s[j]).update(j, s[i])
}

/// The rest of a Knuth shuffle of `s` that has already fixed the
/// positions below `i`, with the generator currently at `state`.
pub open spec fn spec_shuffle_from<A>(s: Seq<A>, state: u32, i: int) -> Seq<A>
    decreases s.len() - i,
{
    if i < 0 || i + 1 >= s.len() {
        s
    } else {
        let st = lcg_next(state);
        let j = i + (st as int % (s.len() - i));
        spec_shuffle_from(seq_swap(s, i, j), st, i + 1)
    }
}

/// A whole Knuth shuffle of `s` driven by a generator seeded with `seed`.
pub open spec fn spec_shuffle<A>(s: Seq<A>, seed: u64) -> Seq<A> {
    spec_shuffle_from(s, (seed % (LCG_M as u64)) as u32, 0)
}

/// Relies on std::time::SystemTime: the seconds elapsed since the Unix
/// epoch, or `None` on a clock that reads before the epoch.  The result
/// depends on the wall clock, so nothing is stated of it.
#[verifier::external_body]
pub fn now_unix_secs() -> Option<u64> {
    match std::time::SystemTime::now().duration_since(std::time::SystemTime::UNIX_EPOCH) {
        Ok(d) => Some(d.as_secs()),
        Err(_) => None,
    }
}

/// Linear congruential generator.
pub struct Lcg {
    pub state: u32,
}

impl Lcg {
    /// A generator whose state is `seed` reduced into the modulus.
    pub fn from_seed(seed: u64) -> (r: Lcg)
        ensures
            r.state == seed % (LCG_M as u64),
    {
        Lcg { state: (seed % (LCG_M as u64)) as u32 }
    }

    /// A generator seeded from the wall clock at the call.
    pub fn new() -> (r: Lcg)
        ensures
            r.state < LCG_M,
    {
        let seed = match now_unix_secs() {
            Some(t) => t,
            None => LCG_FALLBACK_SEED,
        };
        Lcg::from_seed(seed)
    }

    /// Steps the generator and returns an integer in `[0, max_val)`
    /// (`max_val` is exclusive).
    pub fn rand_int_range(&mut self, max_val: u32) -> (r: u32)
        requires
            max_val > 0,
        ensures
            final(self).state == lcg_next(old(self).state),
            r == final(self).state % max_val,
            r < max_val,
    {
        let s0 = self.state;
        proof {
            assert((LCG_A as u64) * (s0 as u64) < 0x1_0000_0000_0000u64) by (nonlinear_arith)
                requires
                    s0 <= 0xFFFF_FFFFu32,
            ;
        }
        self.state = (((LCG_A as u64) * (s0 as u64)) % (LCG_M as u64)) as u32;
        self.state % max_val
    }
}

/// Exchanges the elements of `v` at `i` and `j`.
pub fn vec_swap<T>(v: &mut Vec<T>, i: usize, j: usize)
    requires
        i < old(v).len(),
        j < old(v).len(),
    ensures
        final(v)@ == seq_swap(old(v)@, i as int, j as int),
{
    if i == j {
        proof {
            assert(seq_swap(old(v)@, i as int, j as int) =~= old(v)@);
        }
        return ;
    }
    let lo: usize = if i < j { i } else { j };
    let hi: usize = if i < j { j } else { i };
    let mut moved = v.remove(hi);
    v.set_and_swap(lo, &mut moved);
    v.insert(hi, moved);
    proof {
        assert(v@ =~= seq_swap(old(v)@, i as int, j as int));
    }
}

/// Knuth shuffle driven by the given generator: for each position `i`
/// from the front, a partner `j` in `[i, len - 1]` is drawn and the two
/// are exchanged.
pub fn shuffle_with<T>(vec: &mut Vec<T>, lcg: &mut Lcg)
    requires
        old(vec).len() <= u32::MAX,
    ensures
        final(vec)@ == spec_shuffle_from(old(vec)@, old(lcg).state, 0),
        final(vec)@.to_multiset() == old(vec)@.to_multiset(),
        final(vec)@.len() == old(vec)@.len(),
{
    let n = vec.len();
    let mut i: usize = 0;
    while n - i > 1
        invariant
            n == vec.len(),
            n <= u32::MAX,
            i <= n,
            spec_shuffle_from(vec@, lcg.state, i as int) == spec_shuffle_from(
                old(vec)@,
                old(lcg).state,
                0,
            ),
        decreases n - i,
    {
        let ghost pre = vec@;
        let ghost pre_state = lcg.state;
        let r = lcg.rand_int_range((n - i) as u32);
        let j = i + (r as usize);
        vec_swap(vec, i, j);
        proof {
            assert(vec@ == seq_swap(pre, i as int, j as int));
            assert(j as int == i + (lcg_next(pre_state) as int % (pre.len() - i)));
            assert(spec_shuffle_from(pre, pre_state, i as int) == spec_shuffle_from(
                vec@,
                lcg.state,
                i as int + 1,
            ));
        }
        i = i + 1;
    }
    proof {
        assert(spec_shuffle_from(vec@, lcg.state, i as int) == vec@);
        lemma_spec_shuffle_from_multiset(old(vec)@, old(lcg).state, 0);
    }
}

/// Exchanging two positions of a sequence keeps its multiset of elements.
pub proof fn lemma_seq_swap_multiset<A>(s: Seq<A>, i: int, j: int)
    requires
        0 <= i < s.len(),
        0 <= j < s.len(),
    ensures
        seq_swap(s, i, j).to_multiset() == s.to_multiset(),
{
    broadcast use group_to_multiset_ensures;
    broadcast use to_multiset_update;
    broadcast use vstd::multiset::group_multiset_axioms;
    broadcast use vstd::multiset::group_multiset_properties;

    if i == j {
        assert(seq_swap(s, i, j) =~= s);
    } else {
        let s1 = s.update(i, s[j]);
        assert(s1.to_multiset() == s.to_multiset().insert(s[j]).remove(s[i]));
        assert(s1[j] == s[j]);
        assert(s1.update(j, s[i]).to_multiset() == s1.to_multiset().insert(s[i]).remove(s1[j]));
        assert(s.to_multiset().contains(s[i]));
        assert(seq_swap(s, i, j).to_multiset() =~= s.to_multiset());
    }
}

/// A shuffle is a permutation: the multiset of elements is unchanged.
pub proof fn lemma_spec_shuffle_from_multiset<A>(s: Seq<A>, state: u32, i: int)
    ensures
        spec_shuffle_from(s, state, i).to_multiset() == s.to_multiset(),
    decreases s.len() - i,
{
    if i < 0 || i + 1 >= s.len() {
    } else {
        let st = lcg_next(state);
        let j = i + (st as int % (s.len() - i));
        lemma_seq_swap_multiset(s, i, j);
        lemma_spec_shuffle_from_multiset(seq_swap(s, i, j), st, i + 1);
    }
}

/// Shuffles with a generator seeded from the wall clock, as a play
/// queue in random order is: the result is some permutation of the
/// input, reproducible only through [`shuffle_seeded`].
pub fn shuffle<T>(vec: &mut Vec<T>)
    requires
        old(vec).len() <= u32::MAX,
    ensures
        final(vec)@.to_multiset() == old(vec)@.to_multiset(),
        final(vec)@.len() == old(vec)@.len(),
{
    let mut lcg = Lcg::new();
    shuffle_with(vec, &mut lcg);
}

/// Shuffles with a generator seeded with `seed`: the exact permutation
/// is pinned, so the same seed reorders equal sequences equally.
pub fn shuffle_seeded<T>(vec: &mut Vec<T>, seed: u64)
    requires
        old(vec).len() <= u32::MAX,
    ensures
        final(vec)@ == spec_shuffle(old(vec)@, seed),
        final(vec)@.to_multiset() == old(vec)@.to_multiset(),
        final(vec)@.len() == old(vec)@.len(),
{
    let mut lcg = Lcg::from_seed(seed);
    shuffle_with(vec, &mut lcg);
}

/// Shuffles `n` times over, each pass with a fresh clock-seeded
/// generator.
pub fn shuffle_n<T>(vec: &mut Vec<T>, n: usize)
    requires
        old(vec).len() <= u32::MAX,
    ensures
        final(vec)@.to_multiset() == old(vec)@.to_multiset(),
        final(vec)@.len() == old(vec)@.len(),
        n == 0 ==> final(vec)@ == old(vec)@,
{
    let mut k: usize = 0;
    while k < n
        invariant
            vec@.to_multiset() == old(vec)@.to_multiset(),
            vec@.len() == old(vec)@.len(),
            vec@.len() <= u32::MAX,
            n == 0 ==> vec@ == old(vec)@,
        decreases n - k,
    {
        proof {
            broadcast use group_to_multiset_ensures;
        }
        shuffle(vec);
        k = k + 1;
    }
}

} // verus!

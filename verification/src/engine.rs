//! The integer logic of the audio engine: table positions and channel
//! selection. The sample arithmetic itself is floating point.

use vstd::prelude::*;

verus! {

/// A waveshaper: `tanh(input * drive) / tanh(drive)`. It holds no state.
#[derive(Debug)]
pub struct TanHWaveshaper {}

impl TanHWaveshaper {
    /// A new waveshaper.
    pub fn new() -> (r: Self)
        ensures
            r == (TanHWaveshaper {}),
    {
        TanHWaveshaper {}
    }
}

/// The two table positions that an oscillator or a file reader interpolates
/// between, for the whole part `index` of its read position in a table of
/// `len` entries: the position wrapped into the table, and the one after it,
/// wrapped too.
pub fn table_positions(index: usize, len: usize) -> (r: (usize, usize))
    requires
        len > 0,
    ensures
        r.0 == index % len,
        r.1 == (r.0 + 1) % len as int,
        r.0 < len,
        r.1 < len,
        r.1 == (index + 1) % len as int,
{
    let here = index % len;
    let next = (here + 1) % len;
    proof {
        vstd::arithmetic::div_mod::lemma_add_mod_noop(index as int, 1, len as int);
        vstd::arithmetic::div_mod::lemma_mod_twice(index as int, len as int);
        if len > 1 {
            vstd::arithmetic::div_mod::lemma_small_mod(1, len as nat);
        } else {
            assert((here + 1) % 1 == 0);
            assert((index + 1) % 1 == 0);
        }
    }
    (here, next)
}

/// The items of `s` at positions `0, c, 2c, …`.
pub open spec fn every_nth<T>(s: Seq<T>, c: nat) -> Seq<T>
    decreases s.len(),
{
    if s.len() == 0 || c == 0 {
        Seq::empty()
    } else if s.len() <= c {
        seq![s[0]]
    } else {
        seq![s[0]] + every_nth(s.skip(c as int), c)
    }
}

/// The samples of the first channel of interleaved samples with `channels`
/// channels: those at positions `0, channels, 2 * channels, …`.
pub fn first_channel<T: Copy>(samples: &Vec<T>, channels: usize) -> (r: Vec<T>)
    requires
        channels > 0 || samples.len() == 0,
    ensures
        r@ == every_nth(samples@, channels as nat),
{
    let mut r: Vec<T> = Vec::new();
    if samples.len() == 0 {
        return r;
    }
    let mut i: usize = 0;
    assert(samples@.skip(0) =~= samples@);
    assert(r@ + every_nth(samples@, channels as nat) =~= every_nth(samples@, channels as nat));
    while i < samples.len()
        invariant
            channels > 0,
            i <= samples.len(),
            r@ + every_nth(samples@.skip(i as int), channels as nat) == every_nth(samples@, channels as nat),
        decreases samples.len() - i,
    {
        let x = samples[i];
        let ghost rest = samples@.skip(i as int);
        let ghost r0 = r@;
        assert(rest[0] == x);
        r.push(x);
        if channels >= samples.len() - i {
            assert(every_nth(rest, channels as nat) == seq![x]);
            i = samples.len();
            assert(every_nth(samples@.skip(i as int), channels as nat) =~= Seq::<T>::empty());
            assert(r@ + every_nth(samples@.skip(i as int), channels as nat) =~= r0 + every_nth(
                rest,
                channels as nat,
            ));
        } else {
            assert(rest.skip(channels as int) =~= samples@.skip(i + channels));
            i = i + channels;
            assert(r@ + every_nth(samples@.skip(i as int), channels as nat) =~= r0 + every_nth(
                rest,
                channels as nat,
            ));
        }
    }
    assert(samples@.skip(i as int).len() == 0);
    assert(r@ + Seq::<T>::empty() =~= r@);
    r
}

/// The first channel holds one sample for every `c` interleaved samples,
/// rounded up, and its `k`-th sample is the interleaved sample `k * c`.
pub proof fn law_every_nth<T>(s: Seq<T>, c: nat)
    requires
        c > 0,
    ensures
        every_nth(s, c).len() == if s.len() == 0 {
            0
        } else {
            (s.len() - 1) / (c as int) + 1
        },
        forall|k: int| 0 <= k < every_nth(s, c).len() ==> #[trigger] every_nth(s, c)[k] == s[k * c],
    decreases s.len(),
{
    if s.len() == 0 {
        assert(every_nth(s, c).len() == 0);
    } else if s.len() <= c {
        assert((s.len() - 1) / (c as int) == 0) by (nonlinear_arith)
            requires
                0 <= s.len() - 1 < c,
        ;
        assert forall|k: int| #![trigger every_nth(s, c)[k]] 0 <= k < every_nth(s, c).len() implies every_nth(s, c)[k] == s[k * c] by {
            assert(k == 0);
            assert(k * c == 0) by (nonlinear_arith)
                requires
                    k == 0,
            ;
        }
    } else {
        let t = s.skip(c as int);
        law_every_nth(t, c);
        assert((s.len() - 1) / (c as int) == (t.len() - 1) / (c as int) + 1) by {
            vstd::arithmetic::div_mod::lemma_div_plus_one(t.len() - 1, c as int);
        }
        assert forall|k: int| #![trigger every_nth(s, c)[k]] 0 <= k < every_nth(s, c).len() implies every_nth(s, c)[k] == s[k * c] by {
            if k == 0 {
                assert(k * c == 0) by (nonlinear_arith)
                    requires
                        k == 0,
                ;
            } else {
                assert(every_nth(s, c)[k] == every_nth(t, c)[k - 1]);
                assert((k - 1) * c + c == k * c) by (nonlinear_arith);
                assert(0 <= (k - 1) * c) by (nonlinear_arith)
                    requires
                        k >= 1,
                ;
                assert(every_nth(s, c).len() == 1 + every_nth(t, c).len());
                let q = (t.len() - 1) / (c as int);
                assert(k - 1 <= q);
                assert((k - 1) * c <= q * c) by (nonlinear_arith)
                    requires
                        k - 1 <= q,
                        c > 0,
                ;
                vstd::arithmetic::div_mod::lemma_fundamental_div_mod(t.len() - 1, c as int);
                vstd::arithmetic::div_mod::lemma_mod_bound(t.len() - 1, c as int);
                assert(q * c <= t.len() - 1) by (nonlinear_arith)
                    requires
                        t.len() - 1 == c * q + (t.len() - 1) % (c as int),
                        (t.len() - 1) % (c as int) >= 0,
                ;
                assert((k - 1) * c < t.len());
                assert(t[(k - 1) * c] == s[(k - 1) * c + c]);
            }
        }
    }
}

} // verus!

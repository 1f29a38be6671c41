use vstd::prelude::*;
use crate::audio::types::{SampleBits, SILENCE};

verus! {

/// What `pull` writes: `n` samples of the loop starting at `position`, wrapping
/// around its end; silence when nothing is loaded.
pub open spec fn spec_carrier_out(samples: Seq<SampleBits>, position: nat, n: nat) -> Seq<SampleBits> {
    if samples.len() == 0 {
        Seq::new(n, |i: int| SILENCE)
    } else {
        Seq::new(n, |i: int| samples[(position + i) % (samples.len() as int)])
    }
}

/// Where the loop stands after `pull` wrote `n` samples.
pub open spec fn spec_carrier_next(len: nat, position: nat, n: nat) -> nat {
    if len == 0 { position } else { (position + n) % len }
}

/// Reducing the start of a walk round a loop of length `m` does not change
/// where the walk ends.
pub proof fn lemma_mod_add_left(a: int, j: int, m: int)
    requires
        m > 0,
    ensures
        (a % m + j) % m == (a + j) % m,
{
    let q = a / m;
    let r = a % m;
    vstd::arithmetic::div_mod::lemma_fundamental_div_mod(a, m);
    assert(a + j == m * q + (r + j));
    vstd::arithmetic::div_mod::lemma_mod_multiples_vanish(q, r + j, m);
}

/// Pulling `n` samples and then `k` more writes the same samples as pulling
/// `n + k` at once: the carrier loop runs on seamlessly across buffers.
pub proof fn lemma_carrier_pull_concat(samples: Seq<SampleBits>, position: nat, n: nat, k: nat)
    requires
        samples.len() == 0 ==> position == 0,
    ensures
        spec_carrier_out(samples, position, n)
            + spec_carrier_out(samples, spec_carrier_next(samples.len(), position, n), k)
            =~= spec_carrier_out(samples, position, n + k),
        spec_carrier_next(samples.len(), spec_carrier_next(samples.len(), position, n), k)
            == spec_carrier_next(samples.len(), position, n + k),
{
    let len = samples.len() as int;
    if len > 0 {
        let next = spec_carrier_next(samples.len(), position, n);
        assert forall|j: int| 0 <= j < k implies
            #[trigger] samples[(next + j) % len] == samples[(position + n + j) % len] by {
            lemma_mod_add_left((position + n) as int, j, len);
        }
        lemma_mod_add_left((position + n) as int, k as int, len);
    }
}

/// A looping carrier sample: a short voiced recording that is repeated
/// underneath the mix.
pub struct Carrier {
    samples: Vec<SampleBits>,
    position: usize,
}

impl Default for Carrier {
    fn default() -> (c: Self)
        ensures
            c.samples() == Seq::<SampleBits>::empty(),
            c.position() == 0,
    {
        Carrier::new()
    }
}

impl Carrier {
    #[verifier::type_invariant]
    spec fn inv(self) -> bool {
        if self.samples.len() == 0 { self.position == 0 } else { self.position < self.samples.len() }
    }

    /// The loaded loop.
    pub closed spec fn samples(self) -> Seq<SampleBits> {
        self.samples@
    }

    /// Index of the next sample `pull` writes.
    pub closed spec fn position(self) -> nat {
        self.position as nat
    }

    /// An empty carrier: nothing loaded.
    pub fn new() -> (c: Self)
        ensures
            c.samples() == Seq::<SampleBits>::empty(),
            c.position() == 0,
    {
        Carrier { samples: Vec::new(), position: 0 }
    }

    /// Replaces the loop with freshly decoded `samples` and rewinds it.
    pub fn load_samples(&mut self, samples: Vec<SampleBits>)
        ensures
            final(self).samples() == samples@,
            final(self).position() == 0,
    {
        *self = Carrier { samples, position: 0 };
    }

    /// Whether a loop is loaded.
    pub fn loaded(&self) -> (b: bool)
        ensures
            b == (self.samples().len() > 0),
    {
        self.samples.len() > 0
    }

    /// Fills `out` with carrier samples, looping. If unloaded, output is silence.
    pub fn pull(&mut self, out: &mut [SampleBits])
        ensures
            final(out)@ == spec_carrier_out(old(self).samples(), old(self).position(), old(out)@.len()),
            final(self).samples() == old(self).samples(),
            final(self).position() == spec_carrier_next(
                old(self).samples().len(),
                old(self).position(),
                old(out)@.len(),
            ),
    {
        proof { use_type_invariant(&*self); }
        let n = out.len();
        if self.samples.len() == 0 {
            let mut i: usize = 0;
            while i < n
                invariant
                    i <= n,
                    n == out@.len(),
                    forall|j: int| 0 <= j < i ==> out@[j] == SILENCE,
                decreases n - i,
            {
                out[i] = SILENCE;
                i = i + 1;
            }
            proof {
                assert(out@ =~= spec_carrier_out(self.samples@, self.position as nat, n as nat));
            }
            return;
        }
        let len = self.samples.len();
        let ghost start = self.position as nat;
        let ghost s0 = self.samples@;
        proof { vstd::arithmetic::div_mod::lemma_small_mod(start, len as nat); }
        let mut i: usize = 0;
        while i < n
            invariant
                i <= n,
                n == out@.len(),
                self.samples@ == s0,
                len == s0.len(),
                len > 0,
                self.position < len,
                self.position as int == (start + i) % (len as int),
                forall|j: int| 0 <= j < i ==> out@[j] == self.samples@[(start + j) % (len as int)],
            decreases n - i,
        {
            out[i] = self.samples[self.position];
            proof {
                lemma_mod_add_left(start + i, 1, len as int);
            }
            self.position = (self.position + 1) % len;
            i = i + 1;
        }
        proof {
            assert(out@ =~= spec_carrier_out(self.samples@, start, n as nat));
        }
    }
}

/// A loaded carrier plays its own samples, whatever their number: slot `i`
/// gets the sample `i` places further round the loop, and pulling as many
/// slots as the loop has, from its start, writes exactly the loop.
pub proof fn lemma_carrier_plays_its_samples(samples: Seq<SampleBits>, position: nat, n: nat)
    requires
        samples.len() > 0,
    ensures
        spec_carrier_out(samples, position, n).len() == n,
        forall|i: int| 0 <= i < n ==> {
            &&& 0 <= (position + i) % (samples.len() as int) < samples.len()
            &&& #[trigger] spec_carrier_out(samples, position, n)[i]
                == samples[(position + i) % (samples.len() as int)]
        },
        spec_carrier_out(samples, 0, samples.len()) =~= samples,
{
    let len = samples.len() as int;
    assert forall|i: int| 0 <= i < n implies {
        &&& 0 <= (position + i) % len < len
        &&& #[trigger] spec_carrier_out(samples, position, n)[i] == samples[(position + i) % len]
    } by {
        vstd::arithmetic::div_mod::lemma_mod_pos_bound((position + i) as int, len);
    }
    assert forall|i: int| 0 <= i < len implies spec_carrier_out(samples, 0, samples.len())[i] == samples[i] by {
        vstd::arithmetic::div_mod::lemma_small_mod(i as nat, len as nat);
    }
}

/// An empty carrier writes silence into every slot.
pub proof fn lemma_unloaded_carrier_is_silent(position: nat, n: nat)
    ensures
        forall|i: int| 0 <= i < n ==> #[trigger] spec_carrier_out(Seq::<SampleBits>::empty(), position, n)[i] == SILENCE,
        spec_carrier_out(Seq::<SampleBits>::empty(), position, n).len() == n,
{
}

} // verus!

use vstd::prelude::*;
use crate::audio::carrier::lemma_mod_add_left;
use crate::audio::types::SampleBits;

verus! {

/// Most voices that sound at once; a further `play` drops the oldest.
pub const MAX_VOICES: usize = 8;

/// Where a voice reads its first sample: a looping voice that stands at or
/// past the end of its samples wraps to the start.
pub open spec fn spec_voice_start(len: nat, position: nat, looping: bool) -> nat {
    if looping && position >= len { 0 } else { position }
}

/// How many samples a one-shot voice still has to give.
pub open spec fn spec_voice_left(len: nat, position: nat) -> nat {
    if position < len { (len - position) as nat } else { 0 }
}

/// The sample indices, in order, that a voice reads when asked for `n` output
/// slots: a looping voice fills every slot, wrapping round its samples; a
/// one-shot voice stops when its samples run out.
pub open spec fn spec_voice_reads(len: nat, position: nat, looping: bool, n: nat) -> Seq<int> {
    if looping {
        Seq::new(n, |i: int| (spec_voice_start(len, position, looping) + i) % (len as int))
    } else {
        let k = if n <= spec_voice_left(len, position) { n } else { spec_voice_left(len, position) };
        Seq::new(k, |i: int| position + i)
    }
}

/// The position of a voice after it was asked for `n` output slots.
pub open spec fn spec_voice_next(len: nat, position: nat, looping: bool, n: nat) -> nat {
    if n == 0 {
        position
    } else if looping {
        ((spec_voice_start(len, position, looping) + n - 1) % (len as int) + 1) as nat
    } else {
        position + if n <= spec_voice_left(len, position) { n } else { spec_voice_left(len, position) }
    }
}

/// One playing voice — either looping music or a one-shot SFX.
pub struct Voice {
    pub samples: Vec<SampleBits>,
    pub position: usize,
    pub looping: bool,
    /// Bit pattern of the 32-bit float gain applied to every sample.
    pub gain: SampleBits,
}

impl Voice {
    /// A voice can be pulled unless it loops over no samples at all.
    pub open spec fn pullable(self, n: nat) -> bool {
        n > 0 && self.looping ==> self.samples@.len() > 0
    }

    /// The samples this voice contributes when asked for `n` output slots.
    pub open spec fn spec_pull_out(self, n: nat) -> Seq<SampleBits> {
        spec_voice_reads(self.samples@.len(), self.position as nat, self.looping, n).map_values(
            |k: int| self.samples@[k],
        )
    }

    /// This voice once it was asked for `n` output slots.
    pub open spec fn spec_after(self, n: nat) -> Voice {
        Voice {
            position: spec_voice_next(self.samples@.len(), self.position as nat, self.looping, n) as usize,
            ..self
        }
    }

    pub open spec fn spec_finished(self) -> bool {
        !self.looping && self.position >= self.samples@.len()
    }

    /// Advances the voice by up to `n` output slots and returns, in order, the
    /// samples it contributes: the `i`-th returned sample, scaled by `gain`, is
    /// added into output slot `i`. A one-shot voice that runs out returns fewer
    /// than `n` samples and leaves the remaining slots untouched.
    pub fn pull(&mut self, n: usize) -> (out: Vec<SampleBits>)
        requires
            old(self).pullable(n as nat),
        ensures
            out@ == old(self).spec_pull_out(n as nat),
            *final(self) == old(self).spec_after(n as nat),
    {
        let len = self.samples.len();
        let ghost pos0 = self.position as nat;
        let ghost reads = spec_voice_reads(len as nat, pos0, self.looping, n as nat);
        let ghost v0 = *self;
        let mut out: Vec<SampleBits> = Vec::new();
        if self.looping {
            if n == 0 {
                proof { assert(out@ =~= self.spec_pull_out(0)); }
                return out;
            }
            let ghost p0 = spec_voice_start(len as nat, pos0, true);
            let ghost s0 = self.samples@;
            proof {
                if pos0 < len {
                    vstd::arithmetic::div_mod::lemma_small_mod(pos0, len as nat);
                }
            }
            let mut i: usize = 0;
            while i < n
                invariant
                    i <= n,
                    len > 0,
                    len == s0.len(),
                    self.samples@ == s0,
                    self.samples == v0.samples,
                    self.looping == v0.looping,
                    self.gain == v0.gain,
                    self.looping,
                    p0 < len,
                    p0 == spec_voice_start(len as nat, pos0, true),
                    i == 0 ==> self.position == pos0,
                    i > 0 ==> self.position == (p0 + i - 1) % (len as int) + 1,
                    out@ =~= Seq::new(i as nat, |j: int| s0[(p0 + j) % (len as int)]),
                decreases n - i,
            {
                proof {
                    if i == 0 && pos0 < len {
                        vstd::arithmetic::div_mod::lemma_small_mod(pos0, len as nat);
                    }
                    if i == 0 {
                        vstd::arithmetic::div_mod::lemma_small_mod(0, len as nat);
                    }
                }
                if self.position >= len {
                    proof {
                        if i > 0 {
                            lemma_mod_add_left((p0 + i - 1) as int, 1, len as int);
                            vstd::arithmetic::div_mod::lemma_mod_self_0(len as int);
                        }
                    }
                    self.position = 0;
                } else {
                    proof {
                        if i > 0 {
                            lemma_mod_add_left((p0 + i - 1) as int, 1, len as int);
                            vstd::arithmetic::div_mod::lemma_small_mod(self.position as nat, len as nat);
                        }
                    }
                }
                assert(self.position == (p0 + i) % (len as int));
                out.push(self.samples[self.position]);
                self.position = self.position + 1;
                i = i + 1;
            }
            proof {
                assert(out@ =~= v0.spec_pull_out(n as nat));
            }
            out
        } else {
            let k: usize = if self.position < len {
                if n <= len - self.position { n } else { len - self.position }
            } else {
                0
            };
            let start = self.position;
            let mut i: usize = 0;
            while i < k
                invariant
                    i <= k,
                    k == 0 || start + k <= len,
                    len == self.samples@.len(),
                    out@ =~= Seq::new(i as nat, |j: int| self.samples@[start + j]),
                decreases k - i,
            {
                out.push(self.samples[start + i]);
                i = i + 1;
            }
            self.position = start + k;
            proof {
                assert(out@ =~= v0.spec_pull_out(n as nat));
            }
            out
        }
    }

    /// A one-shot voice that has given all its samples.
    pub fn finished(&self) -> (b: bool)
        ensures
            b == self.spec_finished(),
    {
        !self.looping && self.position >= self.samples.len()
    }
}

} // verus!

verus! {

/// The voices that remain once the finished ones are dropped, in order.
pub open spec fn spec_unfinished(voices: Seq<Voice>) -> Seq<Voice> {
    voices.filter(|v: Voice| !v.spec_finished())
}

/// Every voice advanced by `n` output slots.
pub open spec fn spec_all_after(voices: Seq<Voice>, n: nat) -> Seq<Voice> {
    voices.map_values(|v: Voice| v.spec_after(n))
}

/// The pool of sounding voices, oldest first.
pub struct MusicPlayer {
    voices: Vec<Voice>,
}

impl Default for MusicPlayer {
    fn default() -> (p: Self)
        ensures
            p.voices() == Seq::<Voice>::empty(),
    {
        MusicPlayer::new()
    }
}

impl MusicPlayer {
    #[verifier::type_invariant]
    spec fn inv(self) -> bool {
        self.voices.len() <= MAX_VOICES
    }

    /// The sounding voices, oldest first.
    pub closed spec fn voices(self) -> Seq<Voice> {
        self.voices@
    }

    /// An empty pool.
    pub fn new() -> (p: Self)
        ensures
            p.voices() == Seq::<Voice>::empty(),
    {
        MusicPlayer { voices: Vec::new() }
    }

    /// Starts a new voice at the start of `samples`. When the pool is full the
    /// oldest voice is dropped first.
    pub fn play(&mut self, samples: Vec<SampleBits>, looping: bool, gain: SampleBits)
        ensures
            final(self).voices() == (if old(self).voices().len() >= MAX_VOICES {
                old(self).voices().drop_first()
            } else {
                old(self).voices()
            }).push(Voice { samples, position: 0, looping, gain }),
            final(self).voices().len() <= MAX_VOICES,
    {
        proof { use_type_invariant(&*self); }
        let mut voices = Vec::new();
        std::mem::swap(&mut voices, &mut self.voices);
        if voices.len() >= MAX_VOICES {
            voices.remove(0);
        }
        voices.push(Voice { samples, position: 0, looping, gain });
        self.voices = voices;
    }

    /// Silences every voice.
    pub fn stop_all(&mut self)
        ensures
            final(self).voices() == Seq::<Voice>::empty(),
    {
        self.voices = Vec::new();
    }

    /// Whether every voice can be asked for `n` output slots.
    pub open spec fn pullable(self, n: nat) -> bool {
        forall|j: int| 0 <= j < self.voices().len() ==> (#[trigger] self.voices()[j]).pullable(n)
    }

    /// Tests [`MusicPlayer::pullable`]: no voice loops over empty samples.
    pub fn can_pull(&self, n: usize) -> (b: bool)
        ensures
            b == self.pullable(n as nat),
    {
        let mut j: usize = 0;
        while j < self.voices.len()
            invariant
                j <= self.voices@.len(),
                forall|i: int| 0 <= i < j ==> (#[trigger] self.voices@[i]).pullable(n as nat),
            decreases self.voices@.len() - j,
        {
            if n > 0 && self.voices[j].looping && self.voices[j].samples.len() == 0 {
                assert(!self.voices()[j as int].pullable(n as nat));
                return false;
            }
            j = j + 1;
        }
        true
    }

    /// Advances every voice by `n` output slots and then drops the voices that
    /// have finished. Returns, per voice in pool order, the samples it
    /// contributes and its gain: output slot `i` is the sum over the voices of
    /// their `i`-th sample scaled by their gain.
    pub fn pull_voices(&mut self, n: usize) -> (parts: Vec<(Vec<SampleBits>, SampleBits)>)
        requires
            old(self).pullable(n as nat),
        ensures
            parts@.len() == old(self).voices().len(),
            forall|j: int| 0 <= j < parts@.len() ==> {
                &&& (#[trigger] parts@[j]).0@ == old(self).voices()[j].spec_pull_out(n as nat)
                &&& parts@[j].1 == old(self).voices()[j].gain
            },
            final(self).voices() == spec_unfinished(spec_all_after(old(self).voices(), n as nat)),
    {
        proof { use_type_invariant(&*self); }
        let mut voices = Vec::new();
        std::mem::swap(&mut voices, &mut self.voices);
        let ghost v0 = voices@;
        let ghost after = spec_all_after(v0, n as nat);
        assert(v0 == old(self).voices());
        assert(after.len() == v0.len());
        let mut kept: Vec<Voice> = Vec::new();
        let mut parts: Vec<(Vec<SampleBits>, SampleBits)> = Vec::new();
        let count = voices.len();
        let mut j: usize = 0;
        while j < count
            invariant
                j <= count,
                count == v0.len(),
                count <= MAX_VOICES,
                voices@ == v0.skip(j as int),
                forall|i: int| 0 <= i < v0.len() ==> (#[trigger] v0[i]).pullable(n as nat),
                parts@.len() == j,
                forall|i: int| 0 <= i < j ==> {
                    &&& (#[trigger] parts@[i]).0@ == v0[i].spec_pull_out(n as nat)
                    &&& parts@[i].1 == v0[i].gain
                },
                after == spec_all_after(v0, n as nat),
                after.len() == count,
                kept@ == spec_unfinished(after.take(j as int)),
                kept@.len() <= j,
            decreases count - j,
        {
            let mut v = voices.remove(0);
            assert(v == v0[j as int]);
            let out = v.pull(n);
            parts.push((out, v.gain));
            assert(v == after[j as int]);
            proof {
                reveal_with_fuel(Seq::<_>::filter, 1);
                assert(after.take(j + 1).drop_last() =~= after.take(j as int));
                assert(after.take(j + 1).last() == v);
                assert(voices@ =~= v0.skip(j + 1));
            }
            if !v.finished() {
                kept.push(v);
            }
            j = j + 1;
        }
        proof {
            assert(after.take(count as int) =~= after);
        }
        self.voices = kept;
        parts
    }
}

} // verus!

verus! {

/// Asking a voice for `n` slots and then for `k` more reads the same samples,
/// and leaves it in the same place, as asking it for `n + k` slots at once:
/// playback runs on seamlessly across output buffers, for looping and one-shot
/// voices alike.
pub proof fn lemma_voice_pull_concat(v: Voice, n: nat, k: nat)
    requires
        v.pullable(n + k),
    ensures
        v.spec_pull_out(n) + v.spec_after(n).spec_pull_out(k) =~= v.spec_pull_out(n + k),
        v.spec_after(n).spec_after(k) == v.spec_after(n + k),
{
    let len = v.samples@.len();
    assert(v.samples.len() == len);
    let pos = v.position as nat;
    let w = v.spec_after(n);
    if n == 0 {
        assert(w == v);
        assert(v.spec_pull_out(0) =~= Seq::<SampleBits>::empty());
    } else if v.looping {
        let m = len as int;
        let p0 = spec_voice_start(len, pos, true);
        let q = w.position as nat;
        let p1 = spec_voice_start(len, q, true);
        assert(m > 0);
        if pos < len {
            vstd::arithmetic::div_mod::lemma_small_mod(pos, len);
        }
        lemma_mod_add_left((p0 + n - 1) as int, 1, m);
        vstd::arithmetic::div_mod::lemma_mod_self_0(m);
        vstd::arithmetic::div_mod::lemma_mod_pos_bound((p0 + n - 1) as int, m);
        if q < len {
            vstd::arithmetic::div_mod::lemma_small_mod(q, len);
        } else {
            vstd::arithmetic::div_mod::lemma_small_mod(0, len);
        }
        // Both walks stand at the same place round the loop.
        assert((p1 as int) % m == ((p0 + n) as int) % m);
        assert forall|j: int| 0 <= j < k implies #[trigger] w.spec_pull_out(k)[j]
            == v.spec_pull_out(n + k)[n + j] by {
            lemma_mod_add_left(p1 as int, j, m);
            lemma_mod_add_left((p0 + n) as int, j, m);
        }
        if k > 0 {
            lemma_mod_add_left(p1 as int, k - 1, m);
            lemma_mod_add_left((p0 + n) as int, k - 1, m);
        }
    } else {
    }
}

/// A looping voice fills every slot it is asked for and never finishes.
pub proof fn lemma_looping_voice_fills(v: Voice, n: nat)
    requires
        v.looping,
        v.pullable(n),
    ensures
        v.spec_pull_out(n).len() == n,
        !v.spec_after(n).spec_finished(),
{
}

/// A one-shot voice started at its beginning and asked for at least as many
/// slots as it has samples gives each of its samples exactly once, in order,
/// and is then finished.
pub proof fn lemma_one_shot_plays_once(v: Voice, n: nat)
    requires
        !v.looping,
        v.position == 0,
        n >= v.samples@.len(),
    ensures
        v.spec_pull_out(n) =~= v.samples@,
        v.spec_after(n).spec_finished(),
{
    assert(v.samples.len() == v.samples@.len());
}

/// After the voices are pulled, none of those left in the pool is finished, and
/// the pool keeps its order.
pub proof fn lemma_pulled_pool_has_no_finished_voice(voices: Seq<Voice>, n: nat)
    ensures
        forall|j: int| 0 <= j < spec_unfinished(spec_all_after(voices, n)).len() ==>
            !(#[trigger] spec_unfinished(spec_all_after(voices, n))[j]).spec_finished(),
{
    let s = spec_all_after(voices, n);
    let pred = |v: Voice| !v.spec_finished();
    assert forall|j: int| 0 <= j < s.filter(pred).len() implies
        !(#[trigger] s.filter(pred)[j]).spec_finished() by {
        broadcast use vstd::seq_lib::group_filter_ensures;
        assert(s.filter(pred).contains(s.filter(pred)[j]));
    }
}

/// A voice is finished exactly when it is a one-shot voice that would give no
/// sample even for a single slot: a voice with samples left is never finished.
pub proof fn lemma_finished_means_nothing_left(v: Voice)
    ensures
        v.spec_finished() <==> (!v.looping && v.spec_pull_out(1).len() == 0),
        v.position < v.samples@.len() ==> !v.spec_finished(),
        v.looping ==> !v.spec_finished(),
{
}

/// Each sample a voice gives is the sample at the index it reads, and a
/// looping voice started at its beginning and asked for as many slots as it
/// has samples gives back exactly its samples.
pub proof fn lemma_voice_gives_its_own_samples(v: Voice, n: nat)
    requires
        v.pullable(n),
    ensures
        v.spec_pull_out(n).len() == spec_voice_reads(v.samples@.len(), v.position as nat, v.looping, n).len(),
        forall|i: int| 0 <= i < v.spec_pull_out(n).len() ==> {
            let k = spec_voice_reads(v.samples@.len(), v.position as nat, v.looping, n)[i];
            &&& 0 <= k < v.samples@.len()
            &&& #[trigger] v.spec_pull_out(n)[i] == v.samples@[k]
        },
        v.looping && v.position == 0 && n == v.samples@.len() ==> v.spec_pull_out(n) =~= v.samples@,
{
    let len = v.samples@.len();
    let reads = spec_voice_reads(len, v.position as nat, v.looping, n);
    assert forall|i: int| 0 <= i < v.spec_pull_out(n).len() implies {
        let k = reads[i];
        &&& 0 <= k < len
        &&& #[trigger] v.spec_pull_out(n)[i] == v.samples@[k]
    } by {
        if v.looping {
            vstd::arithmetic::div_mod::lemma_mod_pos_bound(
                (spec_voice_start(len, v.position as nat, true) + i) as int, len as int);
        }
    }
    if v.looping && v.position == 0 && n == len {
        assert forall|i: int| 0 <= i < n implies v.spec_pull_out(n)[i] == v.samples@[i] by {
            vstd::arithmetic::div_mod::lemma_small_mod(i as nat, len);
        }
    }
}

/// After the voices are pulled, every voice that still has samples to give,
/// or loops, is still in the pool.
pub proof fn lemma_unfinished_voices_stay(voices: Seq<Voice>, n: nat, j: int)
    requires
        0 <= j < voices.len(),
        voices[j].spec_after(n).looping
            || voices[j].spec_after(n).position < voices[j].spec_after(n).samples@.len(),
    ensures
        spec_unfinished(spec_all_after(voices, n)).contains(voices[j].spec_after(n)),
{
    broadcast use vstd::seq_lib::group_filter_ensures;
    let s = spec_all_after(voices, n);
    assert(s[j] == voices[j].spec_after(n));
    assert(s.contains(s[j]));
}

} // verus!

//! Ring-buffer storage of the digital delay lines.
//!
//! Each tick reads the slot under the head, writes the slot, and moves the
//! head on by one, wrapping at the end. The samples themselves are opaque
//! here: the buffer stores and returns them unchanged.

use vstd::prelude::*;

verus! {

/// Head position after `pos` in a ring of `n` slots.
pub open spec fn next_pos(pos: int, n: int) -> int {
    if pos + 1 == n {
        0
    } else {
        pos + 1
    }
}

/// A ring of samples with a head position.
#[derive(Debug, Clone)]
pub struct SampleRing<T> {
    slots: Vec<T>,
    pos: usize,
}

impl<T: Copy> SampleRing<T> {
    /// The samples in slot order.
    pub closed spec fn contents(&self) -> Seq<T> {
        self.slots@
    }

    /// The head position.
    pub closed spec fn head(&self) -> int {
        self.pos as int
    }

    /// At least one slot, and the head on one of them.
    pub closed spec fn wf(&self) -> bool {
        self.slots.len() >= 1 && self.pos < self.slots.len()
    }

    /// A ring of `len` slots (at least one), all holding `fill`, head at 0.
    pub fn new(len: usize, fill: T) -> (r: SampleRing<T>)
        ensures
            r.wf(),
            r.contents() == Seq::new(if len == 0 { 1 } else { len as nat }, |_i: int| fill),
            r.head() == 0,
    {
        let n: usize = if len == 0 { 1 } else { len };
        let mut slots: Vec<T> = Vec::new();
        let mut i: usize = 0;
        while i < n
            invariant
                i <= n,
                slots@ == Seq::new(i as nat, |_i: int| fill),
            decreases n - i,
        {
            slots.push(fill);
            i = i + 1;
            assert(slots@ =~= Seq::new(i as nat, |_i: int| fill));
        }
        SampleRing { slots, pos: 0 }
    }

    /// Number of slots.
    pub fn len(&self) -> (r: usize)
        ensures
            r == self.contents().len(),
    {
        self.slots.len()
    }

    /// Position of the head.
    pub fn position(&self) -> (r: usize)
        ensures
            r == self.head(),
    {
        self.pos
    }

    /// The sample under the head.
    pub fn read(&self) -> (r: T)
        requires
            self.wf(),
        ensures
            r == self.contents()[self.head()],
    {
        self.slots[self.pos]
    }

    /// Writes `x` under the head, then moves the head on by one.
    pub fn write_and_advance(&mut self, x: T)
        requires
            old(self).wf(),
        ensures
            final(self).wf(),
            final(self).contents() == old(self).contents().update(old(self).head(), x),
            final(self).head() == next_pos(old(self).head(), old(self).contents().len() as int),
    {
        let p = self.pos;
        self.slots.set(p, x);
        self.pos = if p + 1 == self.slots.len() { 0 } else { p + 1 };
    }

    /// Fills every slot with `fill` and puts the head back at 0.
    pub fn reset(&mut self, fill: T)
        requires
            old(self).wf(),
        ensures
            final(self).wf(),
            (final(self).contents(), final(self).head()) == reset_state(old(self).contents(), fill),
    {
        let n = self.slots.len();
        let mut i: usize = 0;
        while i < n
            invariant
                i <= n,
                n == self.slots.len(),
                n >= 1,
                forall|j: int| 0 <= j < i ==> self.slots@[j] == fill,
            decreases n - i,
        {
            self.slots.set(i, fill);
            i = i + 1;
        }
        self.pos = 0;
        assert(self.slots@ =~= Seq::new(n as nat, |_i: int| fill));
    }
}

/// Contents and head of a ring with contents `c` after a reset to `fill`.
pub open spec fn reset_state<T>(c: Seq<T>, fill: T) -> (Seq<T>, int) {
    (Seq::new(c.len(), |_i: int| fill), 0)
}

/// Contents and head of a ring after `k` ticks from (`c`, `h`), where tick
/// `i` writes `inputs[i]`.
pub open spec fn ring_after<T>(c: Seq<T>, h: int, inputs: Seq<T>, k: nat) -> (Seq<T>, int)
    decreases k,
{
    if k == 0 {
        (c, h)
    } else {
        let prev = ring_after(c, h, inputs, (k - 1) as nat);
        (prev.0.update(prev.1, inputs[k - 1]), next_pos(prev.1, c.len() as int))
    }
}

/// The sample read at tick `k`.
pub open spec fn read_at<T>(c: Seq<T>, h: int, inputs: Seq<T>, k: nat) -> T {
    let s = ring_after(c, h, inputs, k);
    s.0[s.1]
}

/// Slot that lies `t` places after the head `h` in a ring of `n` slots.
pub open spec fn slot_after(h: int, t: int, n: int) -> int {
    if h + t < n {
        h + t
    } else {
        h + t - n
    }
}

proof fn lemma_ring_window<T>(n: nat, fill: T, inputs: Seq<T>, k: nat)
    requires
        n >= 1,
        k <= inputs.len(),
    ensures
        ({
            let s = ring_after(Seq::new(n, |_i: int| fill), 0, inputs, k);
            &&& s.0.len() == n
            &&& 0 <= s.1 < n
            &&& forall|t: int|
                0 <= t < n ==> #[trigger] s.0[slot_after(s.1, t, n as int)] == if k - n + t >= 0 {
                    inputs[k - n + t]
                } else {
                    fill
                }
        }),
    decreases k,
{
    if k > 0 {
        lemma_ring_window(n, fill, inputs, (k - 1) as nat);
        let c = Seq::new(n, |_i: int| fill);
        let p = ring_after(c, 0, inputs, (k - 1) as nat);
        let s = ring_after(c, 0, inputs, k);
        assert forall|t: int| 0 <= t < n implies #[trigger] s.0[slot_after(s.1, t, n as int)]
            == if k - n + t >= 0 {
            inputs[k - n + t]
        } else {
            fill
        } by {
            if t < n - 1 {
                assert(slot_after(s.1, t, n as int) == slot_after(p.1, t + 1, n as int));
            } else {
                assert(slot_after(s.1, t, n as int) == p.1);
            }
        }
    }
}

/// A delay line of `n` slots that starts filled with `fill` and is fed
/// `inputs` reads, at tick `k`, `fill` while `k < n` and afterwards the
/// input of tick `k - n`: with no feedback and a fully wet mix its output
/// is silent for the first `n` samples and then repeats the input `n`
/// samples late.
pub proof fn lemma_delay_repeats_input<T>(n: nat, fill: T, inputs: Seq<T>, k: nat)
    requires
        n >= 1,
        k < inputs.len(),
    ensures
        read_at(Seq::new(n, |_i: int| fill), 0, inputs, k) == if k < n {
            fill
        } else {
            inputs[k - n]
        },
{
    lemma_ring_window(n, fill, inputs, k);
    let s = ring_after(Seq::new(n, |_i: int| fill), 0, inputs, k);
    assert(slot_after(s.1, 0, n as int) == s.1);
}

/// Resetting twice leaves a ring as resetting once does.
pub proof fn lemma_reset_idempotent<T>(c: Seq<T>, fill: T)
    ensures
        reset_state(reset_state(c, fill).0, fill) == reset_state(c, fill),
{
    assert(reset_state(reset_state(c, fill).0, fill).0 =~= reset_state(c, fill).0);
}

} // verus!

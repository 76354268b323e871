//! Fixed-capacity circular sample storage of the pitch shifter: a write
//! cursor that wraps, and the four neighbouring cells that cubic
//! interpolation reads around a read position.
use vstd::prelude::*;

verus! {

/// Fewest cells a ring may have: cubic interpolation reads one cell before
/// the read position and two after it.
pub const MIN_RING_LEN: usize = 4;

/// Circular buffer of `T` with a write cursor.
pub struct RingBuffer<T> {
    cells: Vec<T>,
    write_pos: usize,
}

impl<T> View for RingBuffer<T> {
    type V = Seq<T>;

    closed spec fn view(&self) -> Seq<T> {
        self.cells@
    }
}

/// Cell of a ring of `len` cells that lies `k - 1` cells after `index`,
/// wrapping around; `k` runs over 0..4 for the four taps.
pub open spec fn tap_index(index: nat, len: nat, k: nat) -> nat
    recommends
        len > 0,
{
    ((index + k + len - 1) % (len as int)) as nat
}

impl<T: Copy> RingBuffer<T> {
    /// Where the next sample will be written.
    pub closed spec fn cursor(&self) -> nat {
        self.write_pos as nat
    }

    pub closed spec fn wf(&self) -> bool {
        &&& self.cells@.len() >= MIN_RING_LEN
        &&& self.write_pos < self.cells@.len()
    }

    /// A ring of `len` cells, each holding `fill`, writing first at cell 0.
    pub fn new(len: usize, fill: T) -> (r: Self)
        requires
            len >= MIN_RING_LEN,
        ensures
            r.wf(),
            r@ == Seq::new(len as nat, |_i: int| fill),
            r.cursor() == 0,
    {
        let mut cells: Vec<T> = Vec::with_capacity(len);
        let mut i: usize = 0;
        while i < len
            invariant
                i <= len,
                cells@ == Seq::new(i as nat, |_i: int| fill),
            decreases len - i,
        {
            cells.push(fill);
            i = i + 1;
        }
        RingBuffer { cells, write_pos: 0 }
    }

    pub fn len(&self) -> (r: usize)
        requires
            self.wf(),
        ensures
            r == self@.len(),
            r >= MIN_RING_LEN,
    {
        self.cells.len()
    }

    pub fn write_index(&self) -> (r: usize)
        requires
            self.wf(),
        ensures
            r == self.cursor(),
            r < self@.len(),
    {
        self.write_pos
    }

    /// Stores `x` at the write cursor and advances the cursor by one cell,
    /// wrapping to the start after the last cell.
    pub fn write(&mut self, x: T)
        requires
            old(self).wf(),
        ensures
            final(self).wf(),
            final(self)@ == old(self)@.update(old(self).cursor() as int, x),
            final(self).cursor() == (old(self).cursor() + 1) % old(self)@.len(),
            final(self)@.len() >= MIN_RING_LEN,
            final(self).cursor() < final(self)@.len(),
    {
        let n = self.cells.len();
        self.cells.set(self.write_pos, x);
        self.write_pos = (self.write_pos + 1) % n;
    }

    /// The four cells around read position `index`: one before it, the
    /// cell itself and two after it, all taken around the ring. `index` may
    /// lie beyond the last cell; it is reduced around the ring first.
    pub fn taps(&self, index: usize) -> (r: (T, T, T, T))
        requires
            self.wf(),
        ensures
            r.0 == self@[tap_index(index as nat, self@.len(), 0) as int],
            r.1 == self@[tap_index(index as nat, self@.len(), 1) as int],
            r.2 == self@[tap_index(index as nat, self@.len(), 2) as int],
            r.3 == self@[tap_index(index as nat, self@.len(), 3) as int],
    {
        let n = self.cells.len();
        let i1 = index % n;
        let i0 = if i1 == 0 {
            n - 1
        } else {
            i1 - 1
        };
        let i2 = if i1 + 1 == n {
            0
        } else {
            i1 + 1
        };
        let i3 = if i2 + 1 == n {
            0
        } else {
            i2 + 1
        };
        proof {
            let len = n as int;
            let x = index as int;
            vstd::arithmetic::div_mod::lemma_mod_self_0(len);
            vstd::arithmetic::div_mod::lemma_small_mod((len - 1) as nat, len as nat);
            vstd::arithmetic::div_mod::lemma_small_mod(i1 as nat, len as nat);
            vstd::arithmetic::div_mod::lemma_small_mod(i2 as nat, len as nat);
            if i1 > 0 {
                vstd::arithmetic::div_mod::lemma_mod_add_multiples_vanish(i1 - 1, len);
                vstd::arithmetic::div_mod::lemma_small_mod((i1 - 1) as nat, len as nat);
            }
            if i1 + 1 < len {
                vstd::arithmetic::div_mod::lemma_small_mod((i1 + 1) as nat, len as nat);
            }
            if i2 + 1 < len {
                vstd::arithmetic::div_mod::lemma_small_mod((i2 + 1) as nat, len as nat);
            }
            assert(i0 == (i1 + len - 1) % len);
            assert(i2 == (i1 + 1) % len);
            assert(i3 == (i2 + 1) % len);
            lemma_mod_shift(x, len - 1, len);
            lemma_mod_shift(x, 1, len);
            lemma_mod_shift(x, 2, len);
            lemma_mod_shift(i1 + 1, 1, len);
            vstd::arithmetic::div_mod::lemma_mod_add_multiples_vanish(x, len);
            vstd::arithmetic::div_mod::lemma_mod_add_multiples_vanish(x + 1, len);
            vstd::arithmetic::div_mod::lemma_mod_add_multiples_vanish(x + 2, len);
            assert(i2 == (x + 1 + len) % len);
            assert(i3 == (x + 2 + len) % len);
            assert(i1 == (x + len) % len);
        }
        (self.cells[i0], self.cells[i1], self.cells[i2], self.cells[i3])
    }
}

/// Reducing before adding an offset changes nothing around the ring.
proof fn lemma_mod_shift(x: int, k: int, len: int)
    requires
        x >= 0,
        k >= 0,
        len > 0,
    ensures
        (x % len + k) % len == (x + k) % len,
{
    vstd::arithmetic::div_mod::lemma_add_mod_noop(x, k, len);
    vstd::arithmetic::div_mod::lemma_add_mod_noop(x % len, k, len);
    vstd::arithmetic::div_mod::lemma_mod_twice(x, len);
}

} // verus!

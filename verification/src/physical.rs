//! Physical frame allocation with a bitmap: bit `i % 64` of word `i / 64`
//! is set while frame `i` is free.

use vstd::prelude::*;

verus! {

/// Size of a physical frame in bytes.
pub const FRAME_SIZE: u64 = 4096;

/// Whether bit `b` of `w` is set.
pub open spec fn bit_set(w: u64, b: u64) -> bool {
    (w >> b) & 1u64 == 1u64
}

/// Whether frame `i` is marked free in `bm`.
pub open spec fn frame_free(bm: Seq<u64>, i: int) -> bool {
    0 <= i && i / 64 < bm.len() && bit_set(bm[i / 64], (i % 64) as u64)
}

/// `bm` with the bit of frame `i` cleared.
pub open spec fn cleared(bm: Seq<u64>, i: int) -> Seq<u64> {
    bm.update(i / 64, bm[i / 64] & !(1u64 << ((i % 64) as u64)))
}

/// `bm` with the bit of frame `i` set.
pub open spec fn marked_free(bm: Seq<u64>, i: int) -> Seq<u64> {
    bm.update(i / 64, bm[i / 64] | (1u64 << ((i % 64) as u64)))
}

/// The first free frame met when probing `start`, `start + 1`, ... modulo
/// `total`, counting from the `i`-th probe.
pub open spec fn probe_from(bm: Seq<u64>, start: int, total: int, i: int) -> Option<int>
    decreases total - i,
{
    if i >= total {
        None
    } else if frame_free(bm, (start + i) % total) {
        Some((start + i) % total)
    } else {
        probe_from(bm, start, total, i + 1)
    }
}

/// Number of set bits among the lowest `n` bits of `w`.
pub open spec fn popcount(w: u64, n: nat) -> nat
    decreases n,
{
    if n == 0 {
        0
    } else {
        popcount(w, (n - 1) as nat) + if bit_set(w, (n - 1) as u64) {
            1nat
        } else {
            0nat
        }
    }
}

/// Number of set bits in the first `n` words of `bm`.
pub open spec fn bitmap_ones(bm: Seq<u64>, n: nat) -> nat
    decreases n,
{
    if n == 0 {
        0
    } else {
        bitmap_ones(bm, (n - 1) as nat) + popcount(bm[n - 1], 64)
    }
}

proof fn lemma_bit_and(w: u64, b: u64)
    requires
        b < 64,
    ensures
        (w & (1u64 << b) != 0) == bit_set(w, b),
{
    assert((w & (1u64 << b) != 0) == ((w >> b) & 1u64 == 1u64)) by (bit_vector)
        requires
            b < 64,
    ;
}

proof fn lemma_clear_bit(w: u64, b: u64, c: u64)
    requires
        b < 64,
        c < 64,
    ensures
        !bit_set(w & !(1u64 << b), b),
        c != b ==> bit_set(w & !(1u64 << b), c) == bit_set(w, c),
        bit_set(w | (1u64 << b), b),
        c != b ==> bit_set(w | (1u64 << b), c) == bit_set(w, c),
{
    assert(((w & !(1u64 << b)) >> b) & 1u64 != 1u64) by (bit_vector)
        requires
            b < 64,
    ;
    assert(c != b ==> (((w & !(1u64 << b)) >> c) & 1u64 == 1u64) == ((w >> c) & 1u64 == 1u64))
        by (bit_vector)
        requires
            b < 64,
            c < 64,
    ;
    assert(((w | (1u64 << b)) >> b) & 1u64 == 1u64) by (bit_vector)
        requires
            b < 64,
    ;
    assert(c != b ==> (((w | (1u64 << b)) >> c) & 1u64 == 1u64) == ((w >> c) & 1u64 == 1u64))
        by (bit_vector)
        requires
            b < 64,
            c < 64,
    ;
}

proof fn lemma_word_index(j: int, total: int)
    requires
        0 <= j < total,
    ensures
        j / 64 < (total + 63) / 64,
        64 * ((total + 63) / 64) <= total + 63,
{
}

proof fn lemma_all_ones(b: u64)
    requires
        b < 64,
    ensures
        bit_set(u64::MAX, b),
{
    assert((u64::MAX >> b) & 1u64 == 1u64) by (bit_vector)
        requires
            b < 64,
    ;
}

/// Frame allocator over a bitmap.
pub struct BitmapFrameAllocator {
    bitmap: Vec<u64>,
    total_frames: usize,
    first_frame: u64,
    next_free: usize,
}

impl BitmapFrameAllocator {
    /// The bitmap words.
    pub closed spec fn bits(&self) -> Seq<u64> {
        self.bitmap@
    }

    /// Number of frames managed.
    pub closed spec fn total(&self) -> int {
        self.total_frames as int
    }

    /// Start address of frame 0.
    pub closed spec fn first(&self) -> u64 {
        self.first_frame
    }

    /// Where the next search for a free frame starts.
    pub closed spec fn next(&self) -> int {
        self.next_free as int
    }

    /// The allocator's invariant: one bit per frame, the search start inside
    /// the frames, and every frame's address a valid 52-bit physical address.
    pub closed spec fn wf(&self) -> bool {
        &&& self.total_frames > 0
        &&& self.total_frames + 63 <= usize::MAX
        &&& self.bitmap@.len() == (self.total_frames + 63) / 64
        &&& self.next_free < self.total_frames
        &&& self.first_frame % FRAME_SIZE == 0
        &&& self.first_frame + self.total_frames * FRAME_SIZE < 0x10_0000_0000_0000
    }

    /// What the invariant says of the frames: at least one, the search
    /// start among them, and all of them below 2^52.
    pub proof fn lemma_bounds(&self)
        requires
            self.wf(),
        ensures
            self.total() > 0,
            0 <= self.next() < self.total(),
            self.first() + self.total() * FRAME_SIZE < 0x10_0000_0000_0000,
    {
    }

    /// An allocator for `total_frames` frames from `first_frame_addr`, all
    /// free but the first `reserved_frames`, with the search starting after
    /// them.
    pub fn new(total_frames: usize, first_frame_addr: u64, reserved_frames: usize) -> (a: Self)
        requires
            0 < reserved_frames < total_frames,
            total_frames + 63 <= usize::MAX,
            first_frame_addr % FRAME_SIZE == 0,
            first_frame_addr + total_frames * FRAME_SIZE < 0x10_0000_0000_0000,
        ensures
            a.wf(),
            a.total() == total_frames,
            a.first() == first_frame_addr,
            a.next() == reserved_frames,
            forall|i: int| 0 <= i < total_frames ==> (frame_free(a.bits(), i) <==> i >= reserved_frames),
    {
        let words: usize = (total_frames + 63) / 64;
        let mut bitmap: Vec<u64> = Vec::new();
        let mut w: usize = 0;
        while w < words
            invariant
                w <= words,
                bitmap@.len() == w,
                forall|k: int| 0 <= k < w ==> bitmap@[k] == u64::MAX,
            decreases words - w,
        {
            bitmap.push(u64::MAX);
            w = w + 1;
        }
        proof {
            assert forall|j: int| 0 <= j < total_frames implies frame_free(bitmap@, j) by {
                lemma_word_index(j, total_frames as int);
                lemma_all_ones((j % 64) as u64);
            }
        }
        let mut i: usize = 0;
        while i < reserved_frames
            invariant
                i <= reserved_frames < total_frames,
                words == (total_frames + 63) / 64,
                bitmap@.len() == words,
                forall|j: int| 0 <= j < total_frames ==> (frame_free(bitmap@, j) <==> j >= i),
            decreases reserved_frames - i,
        {
            let word_idx = i / 64;
            let bit_idx = (i % 64) as u64;
            let old_bm = Ghost(bitmap@);
            let cur = bitmap[word_idx];
            bitmap.set(word_idx, cur & !(1u64 << bit_idx));
            proof {
                assert forall|j: int| 0 <= j < total_frames implies (frame_free(bitmap@, j) <==> j
                    >= i + 1) by {
                    lemma_word_index(j, total_frames as int);
                    lemma_word_index(i as int, total_frames as int);
                    lemma_clear_bit(cur, bit_idx, (j % 64) as u64);
                    assert(cur == old_bm@[(i / 64) as int]);
                    assert(frame_free(old_bm@, j) <==> j >= i);
                    if j / 64 != i / 64 {
                        assert(bitmap@[j / 64] == old_bm@[j / 64]);
                        assert(j != i);
                    } else if j != i {
                        assert(j % 64 != i % 64);
                        assert(bitmap@[j / 64] == cur & !(1u64 << bit_idx));
                        assert(bit_set(bitmap@[j / 64], (j % 64) as u64) == bit_set(cur, (j % 64) as u64));
                    } else {
                        assert(bitmap@[j / 64] == cur & !(1u64 << bit_idx));
                        assert(!bit_set(bitmap@[j / 64], (j % 64) as u64));
                    }
                }
            }
            i = i + 1;
        }
        proof {
            assert forall|j: int| 0 <= j < total_frames implies (frame_free(bitmap@, j) <==> j
                >= reserved_frames) by {}
        }
        BitmapFrameAllocator {
            bitmap,
            total_frames,
            first_frame: first_frame_addr,
            next_free: reserved_frames,
        }
    }

    /// Allocates the first free frame found from the search start, wrapping
    /// around, marks it used and returns its start address.
    pub fn allocate_frame(&mut self) -> (r: Option<u64>)
        requires
            old(self).wf(),
        ensures
            final(self).wf(),
            final(self).total() == old(self).total(),
            final(self).first() == old(self).first(),
            match probe_from(old(self).bits(), old(self).next(), old(self).total(), 0) {
                None => r is None && final(self).bits() == old(self).bits() && final(self).next()
                    == old(self).next(),
                Some(idx) => {
                    &&& r == Some((old(self).first() + idx * FRAME_SIZE) as u64)
                    &&& final(self).bits() == cleared(old(self).bits(), idx)
                    &&& final(self).next() == (idx + 1) % old(self).total()
                },
            },
    {
        let start = self.next_free;
        let total = self.total_frames;
        let mut i: usize = 0;
        while i < total
            invariant
                self.wf(),
                *self == *old(self),
                start == self.next_free,
                total == self.total_frames,
                i <= total,
                probe_from(self.bitmap@, start as int, total as int, 0) == probe_from(
                    self.bitmap@,
                    start as int,
                    total as int,
                    i as int,
                ),
            decreases total - i,
        {
            let frame_idx = ((start as u64 + i as u64) % total as u64) as usize;
            let word_idx = frame_idx / 64;
            let bit_idx = (frame_idx % 64) as u64;
            if word_idx < self.bitmap.len() {
                let word = self.bitmap[word_idx];
                proof {
                    lemma_bit_and(word, bit_idx);
                }
                if (word & (1u64 << bit_idx)) != 0 {
                    self.bitmap.set(word_idx, word & !(1u64 << bit_idx));
                    self.next_free = (frame_idx + 1) % total;
                    let addr = self.first_frame + (frame_idx as u64) * FRAME_SIZE;
                    return Some(addr);
                }
            }
            i = i + 1;
        }
        None
    }

    /// Marks the frame that starts at `frame_addr` free again and moves the
    /// search start back to it when it lies before. Addresses before the
    /// first frame or past the last one are ignored.
    pub fn deallocate_frame(&mut self, frame_addr: u64)
        requires
            old(self).wf(),
        ensures
            final(self).wf(),
            final(self).total() == old(self).total(),
            final(self).first() == old(self).first(),
            ({
                let idx = (frame_addr - old(self).first()) / (FRAME_SIZE as int);
                if frame_addr >= old(self).first() && idx < old(self).total() {
                    &&& final(self).bits() == marked_free(old(self).bits(), idx)
                    &&& final(self).next() == if idx < old(self).next() {
                        idx
                    } else {
                        old(self).next()
                    }
                } else {
                    &&& final(self).bits() == old(self).bits()
                    &&& final(self).next() == old(self).next()
                }
            }),
    {
        if frame_addr < self.first_frame {
            return ;
        }
        let offset = frame_addr - self.first_frame;
        let idx64 = offset / FRAME_SIZE;
        if idx64 < self.total_frames as u64 {
            let frame_idx = idx64 as usize;
            let word_idx = frame_idx / 64;
            let bit_idx = (frame_idx % 64) as u64;
            if word_idx < self.bitmap.len() {
                let word = self.bitmap[word_idx];
                self.bitmap.set(word_idx, word | (1u64 << bit_idx));
                if frame_idx < self.next_free {
                    self.next_free = frame_idx;
                }
            }
        }
    }

    /// Number of frames marked free: the set bits of the whole bitmap.
    pub fn free_frames(&self) -> (n: usize)
        requires
            self.wf(),
        ensures
            n == bitmap_ones(self.bits(), self.bits().len()),
    {
        let mut count: usize = 0;
        let mut w: usize = 0;
        while w < self.bitmap.len()
            invariant
                self.wf(),
                w <= self.bitmap.len(),
                count == bitmap_ones(self.bitmap@, w as nat),
                count <= 64 * w,
            decreases self.bitmap.len() - w,
        {
            let word = self.bitmap[w];
            let mut b: u64 = 0;
            let mut ones: usize = 0;
            while b < 64
                invariant
                    b <= 64,
                    ones == popcount(word, b as nat),
                    ones <= b,
                decreases 64 - b,
            {
                if (word >> b) & 1u64 == 1u64 {
                    ones = ones + 1;
                }
                b = b + 1;
            }
            proof {
                lemma_word_index(0, self.total_frames as int);
                assert(64 * (w + 1) <= 64 * self.bitmap@.len()) by (nonlinear_arith)
                    requires
                        w < self.bitmap@.len(),
                ;
            }
            count = count + ones;
            w = w + 1;
        }
        count
    }

    /// Number of frames managed.
    pub fn total_frames(&self) -> (n: usize)
        ensures
            n == self.total(),
    {
        self.total_frames
    }
}

/// An allocation hands out a frame that was free and marks exactly that
/// frame used.
pub proof fn law_allocation_takes_one_free_frame(bm: Seq<u64>, start: int, total: int, k: int)
    requires
        0 <= start < total,
        bm.len() == (total + 63) / 64,
        probe_from(bm, start, total, 0) is Some,
        0 <= k < total,
    ensures
        ({
            let idx = probe_from(bm, start, total, 0)->0;
            &&& 0 <= idx < total
            &&& frame_free(bm, idx)
            &&& !frame_free(cleared(bm, idx), idx)
            &&& k != idx ==> frame_free(cleared(bm, idx), k) == frame_free(bm, k)
        }),
{
    let idx = probe_from(bm, start, total, 0)->0;
    lemma_probe_found(bm, start, total, 0);
    lemma_clear_bit(bm[idx / 64], (idx % 64) as u64, (k % 64) as u64);
    lemma_clear_bit(bm[idx / 64], (idx % 64) as u64, (idx % 64) as u64);
    if k != idx && k / 64 == idx / 64 {
        assert(k % 64 != idx % 64);
    }
}

/// What a probe finds is a free frame among the `total` frames.
/// What the search finds is a free frame below `total`.
pub(crate) proof fn lemma_probe_found(bm: Seq<u64>, start: int, total: int, i: int)
    requires
        0 <= start,
        0 <= i,
        probe_from(bm, start, total, i) is Some,
    ensures
        0 <= probe_from(bm, start, total, i)->0 < total,
        frame_free(bm, probe_from(bm, start, total, i)->0),
    decreases total - i,
{
    if i < total && !frame_free(bm, (start + i) % total) {
        lemma_probe_found(bm, start, total, i + 1);
    }
}

/// Freeing a frame that was just allocated gives back the bitmap as it was.
pub proof fn law_free_undoes_allocate(bm: Seq<u64>, idx: int)
    requires
        0 <= idx,
        idx / 64 < bm.len(),
        frame_free(bm, idx),
    ensures
        marked_free(cleared(bm, idx), idx) == bm,
{
    let w = bm[idx / 64];
    let b = (idx % 64) as u64;
    assert(((w & !(1u64 << b)) | (1u64 << b)) == w) by (bit_vector)
        requires
            b < 64,
            (w >> b) & 1u64 == 1u64,
    ;
    assert(marked_free(cleared(bm, idx), idx) =~= bm);
}

} // verus!

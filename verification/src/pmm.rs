//! Bookkeeping for physical memory: one bit for each page frame.

use vstd::prelude::*;

verus! {

/// Bytes of physical memory that are kept track of.
pub const ADDRESS_SPACE: usize = 0xffff_ffff;

/// Number of slots the iterator of a bitmap walks, and number of bytes a
/// bitmap keeps.
pub const BITMAP_SLOTS: usize = ADDRESS_SPACE / 8;

/// Number of bits a bitmap holds: eight to each byte it keeps.
pub const BITMAP_BITS: usize = BITMAP_SLOTS * 8;

/// Whether bit `k` of `byte` is set.
pub open spec fn bit_of(byte: u8, k: u8) -> bool {
    byte & (1u8 << k) != 0
}

proof fn lemma_bit_set(byte: u8, k: u8, j: u8)
    by (bit_vector)
    requires
        k < 8,
        j < 8,
    ensures
        ((byte | (1u8 << k)) & (1u8 << j) != 0) == (j == k || byte & (1u8 << j) != 0),
{
}

proof fn lemma_bit_clear(byte: u8, k: u8, j: u8)
    by (bit_vector)
    requires
        k < 8,
        j < 8,
    ensures
        ((byte & !(1u8 << k)) & (1u8 << j) != 0) == (j != k && byte & (1u8 << j) != 0),
{
}

proof fn lemma_bit_zero(j: u8)
    by (bit_vector)
    requires
        j < 8,
    ensures
        0u8 & (1u8 << j) == 0,
{
}

/// A set of bit indices below `BITMAP_BITS`, kept as an array of bits.
pub struct Bitmap {
    data: Vec<u8>,
}

impl View for Bitmap {
    type V = Seq<bool>;

    /// The bits, by index: `true` for a bit that is set.
    closed spec fn view(&self) -> Seq<bool> {
        Seq::new(BITMAP_BITS as nat, |i: int| bit_of(self.data@[i / 8], (i % 8) as u8))
    }
}

impl Bitmap {
    #[verifier::type_invariant]
    spec fn inv(self) -> bool {
        self.data@.len() == BITMAP_SLOTS
    }

    /// A bitmap with no bit set.
    pub fn new() -> (bitmap: Self)
        ensures
            bitmap@ == Seq::new(BITMAP_BITS as nat, |i: int| false),
    {
        let bitmap = Bitmap { data: vec![0u8; BITMAP_SLOTS] };
        proof {
            assert forall|i: int| 0 <= i < BITMAP_BITS implies !(#[trigger] bitmap@[i]) by {
                lemma_bit_zero((i % 8) as u8);
            }
            assert(bitmap@ =~= Seq::new(BITMAP_BITS as nat, |i: int| false));
        }
        bitmap
    }

    /// Number of bits, whatever the bitmap holds.
    pub proof fn lemma_len(&self)
        ensures
            self@.len() == BITMAP_BITS,
    {
    }

    /// Whether bit `i` is set.
    pub fn get(&self, i: usize) -> (set: bool)
        requires
            i < BITMAP_BITS,
        ensures
            set == self@[i as int],
    {
        proof {
            use_type_invariant(self);
        }
        let byte = i / 8;
        let bit = i % 8;
        self.data[byte] & (1u8 << bit) != 0
    }

    /// Sets bit `i`.
    pub fn set(&mut self, i: usize)
        requires
            i < BITMAP_BITS,
        ensures
            final(self)@ == old(self)@.update(i as int, true),
            final(self)@[i as int],
    {
        proof {
            use_type_invariant(&*self);
        }
        let byte = i / 8;
        let bit = i % 8;
        let before = self.data[byte];
        self.data[byte] = before | (1u8 << bit);
        proof {
            assert forall|j: int| 0 <= j < BITMAP_BITS implies #[trigger] self@[j] == old(
                self,
            )@.update(i as int, true)[j] by {
                if j / 8 == byte as int {
                    lemma_bit_set(before, bit as u8, (j % 8) as u8);
                }
            }
            assert(self@ =~= old(self)@.update(i as int, true));
        }
    }

    /// Clears bit `i`.
    pub fn unset(&mut self, i: usize)
        requires
            i < BITMAP_BITS,
        ensures
            final(self)@ == old(self)@.update(i as int, false),
            !final(self)@[i as int],
    {
        proof {
            use_type_invariant(&*self);
        }
        let byte = i / 8;
        let bit = i % 8;
        let before = self.data[byte];
        self.data[byte] = before & !(1u8 << bit);
        proof {
            assert forall|j: int| 0 <= j < BITMAP_BITS implies #[trigger] self@[j] == old(
                self,
            )@.update(i as int, false)[j] by {
                if j / 8 == byte as int {
                    lemma_bit_clear(before, bit as u8, (j % 8) as u8);
                }
            }
            assert(self@ =~= old(self)@.update(i as int, false));
        }
    }

    /// An iterator over the first `BITMAP_SLOTS` bits.
    pub fn iter<'a>(&'a self) -> (iter: BitmapIter<'a>)
        ensures
            iter.remaining() == self@.take(BITMAP_SLOTS as int),
            iter.remaining().len() == BITMAP_SLOTS,
    {
        let iter = BitmapIter { index: 0, bitmap: self };
        assert(iter.remaining() =~= self@.take(BITMAP_SLOTS as int));
        iter
    }
}

/// Walks the slots of a bitmap from slot 0 on.
pub struct BitmapIter<'a> {
    index: usize,
    bitmap: &'a Bitmap,
}

impl<'a> BitmapIter<'a> {
    #[verifier::type_invariant]
    spec fn inv(self) -> bool {
        self.index <= BITMAP_SLOTS
    }

    /// The bits that are still to come, in the order in which they come.
    pub closed spec fn remaining(&self) -> Seq<bool> {
        self.bitmap@.subrange(self.index as int, BITMAP_SLOTS as int)
    }

    /// The next bit; `None` once the last slot has been given.
    pub fn next(&mut self) -> (item: Option<bool>)
        ensures
            old(self).remaining().len() == 0 ==> item is None && final(self).remaining() == old(
                self,
            ).remaining(),
            old(self).remaining().len() > 0 ==> item == Some(old(self).remaining()[0])
                && final(self).remaining() == old(self).remaining().drop_first(),
    {
        proof {
            use_type_invariant(&*self);
        }
        if self.index == BITMAP_SLOTS {
            return None;
        }
        let item = self.bitmap.get(self.index);
        self.index += 1;
        assert(self.remaining() =~= old(self).remaining().drop_first());
        Some(item)
    }
}

} // verus!

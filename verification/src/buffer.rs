//! The immutable shared `Buffer` and the growable, exclusively owned
//! `MutableBuffer`.
//!
//! A `Buffer` is a shared-ownership handle to a byte region plus an offset;
//! its logical content is the region from the offset onward. Cloning and
//! slicing share the region. A `MutableBuffer` owns its region exclusively,
//! is written and grown in place, and `freeze` transfers the region to a new
//! immutable `Buffer` without copying the written bytes again.

use vstd::prelude::*;
use vstd::slice::{slice_subrange, slice_to_vec};
use std::sync::Arc;
use crate::bit_util;
use crate::error::ArrowError;

verus! {

/// Relies on `alloc::sync::Arc::clone`: the returned handle refers to the
/// same region as the argument, so both views are equal.
#[verifier::external_body]
fn share_region(region: &Arc<Vec<u8>>) -> (r: Arc<Vec<u8>>)
    ensures
        r@ == region@,
{
    Arc::clone(region)
}

/// Compares two byte slices for element-wise equality.
fn slices_equal(a: &[u8], b: &[u8]) -> (r: bool)
    ensures
        r == (a@ == b@),
{
    if a.len() != b.len() {
        proof {
            assert(a@.len() != b@.len());
        }
        return false;
    }
    let n: usize = a.len();
    let mut i: usize = 0;
    while i < n
        invariant
            0 <= i <= n,
            n == a@.len(),
            n == b@.len(),
            forall|j: int| 0 <= j < i ==> a@[j] == b@[j],
        decreases n - i,
    {
        if a[i] != b[i] {
            return false;
        }
        i = i + 1;
    }
    proof {
        assert(a@ =~= b@);
    }
    true
}

/// An immutable, shared byte buffer: a reference-counted region and an
/// offset into it. The logical content (the view) is the region from the
/// offset to its end.
#[derive(Debug)]
pub struct Buffer {
    region: Arc<Vec<u8>>,
    offset: usize,
}

impl View for Buffer {
    type V = Seq<u8>;

    closed spec fn view(&self) -> Seq<u8> {
        self.region@.skip(self.offset as int)
    }
}

impl Buffer {
    #[verifier::type_invariant]
    spec fn type_inv(self) -> bool {
        self.offset <= self.region@.len()
    }

    /// The length of the shared origin region.
    pub closed spec fn spec_region_len(&self) -> int {
        self.region@.len() as int
    }

    /// The offset of this handle into the shared region.
    pub closed spec fn spec_offset(&self) -> int {
        self.offset as int
    }

    /// Creates a buffer by copying `data` into a newly allocated region.
    pub fn from_slice(data: &[u8]) -> (r: Buffer)
        ensures
            r@ == data@,
            r.spec_offset() == 0,
    {
        Buffer { region: Arc::new(slice_to_vec(data)), offset: 0 }
    }

    /// Returns an empty buffer.
    pub fn empty() -> (r: Buffer)
        ensures
            r@ == Seq::<u8>::empty(),
            r.spec_offset() == 0,
    {
        Buffer { region: Arc::new(Vec::new()), offset: 0 }
    }

    /// The number of logical bytes: the region length minus the offset.
    pub fn len(&self) -> (r: usize)
        ensures
            r == self@.len(),
            r == self.spec_region_len() - self.spec_offset(),
    {
        proof {
            use_type_invariant(self);
        }
        self.region.len() - self.offset
    }

    /// Whether the buffer holds no logical bytes.
    pub fn is_empty(&self) -> (r: bool)
        ensures
            r == (self@.len() == 0),
    {
        self.len() == 0
    }

    /// The logical bytes of this buffer.
    pub fn data(&self) -> (r: &[u8])
        ensures
            r@ == self@,
    {
        proof {
            use_type_invariant(self);
        }
        slice_subrange(self.region.as_slice(), self.offset, self.region.len())
    }

    /// A zero-copy slice of this buffer starting `offset` bytes in: the
    /// region is shared and only the handle's offset advances.
    pub fn slice(&self, offset: usize) -> (r: Buffer)
        requires
            offset <= self@.len(),
        ensures
            r@ == self@.skip(offset as int),
            r@.len() == self@.len() - offset as int,
            r.spec_offset() == self.spec_offset() + offset,
            r.spec_region_len() == self.spec_region_len(),
    {
        proof {
            use_type_invariant(self);
        }
        let region_len: usize = self.region.len();
        proof {
            assert(self@.len() == region_len - self.offset as int);
        }
        let r = Buffer { region: share_region(&self.region), offset: self.offset + offset };
        proof {
            assert(r@ =~= self@.skip(offset as int));
        }
        r
    }
}

impl Clone for Buffer {
    /// Shares the region: the clone has the same offset and the same view.
    fn clone(&self) -> (r: Buffer)
        ensures
            r@ == self@,
            r.spec_offset() == self.spec_offset(),
            r.spec_region_len() == self.spec_region_len(),
    {
        proof {
            use_type_invariant(self);
        }
        Buffer { region: share_region(&self.region), offset: self.offset }
    }
}

impl PartialEq for Buffer {
    /// Equality compares only the logical byte range.
    fn eq(&self, other: &Buffer) -> (r: bool) {
        slices_equal(self.data(), other.data())
    }
}

impl vstd::std_specs::cmp::PartialEqSpecImpl for Buffer {
    open spec fn obeys_eq_spec() -> bool {
        true
    }

    open spec fn eq_spec(&self, other: &Buffer) -> bool {
        self@ == other@
    }
}

/// A growable, writable byte buffer with exclusive ownership of its region.
///
/// The region always holds exactly `capacity` addressable bytes, `capacity`
/// is a multiple of 64, and `len <= capacity` counts the logical bytes.
/// Bytes in `[len, capacity)` are unspecified unless explicitly zeroed with
/// `set_null_bits`.
#[derive(Debug)]
pub struct MutableBuffer {
    region: Vec<u8>,
    len: usize,
}

impl MutableBuffer {
    #[verifier::type_invariant]
    pub open spec fn type_inv(self) -> bool {
        self.wf()
    }

    /// The logical length in bytes.
    pub closed spec fn spec_len(&self) -> int {
        self.len as int
    }

    /// The capacity in bytes; always a multiple of 64.
    pub closed spec fn spec_capacity(&self) -> int {
        self.region@.len() as int
    }

    /// The whole addressable region, `capacity` bytes long.
    pub closed spec fn spec_region(&self) -> Seq<u8> {
        self.region@
    }

    /// The logical content: the first `len` bytes of the region.
    pub open spec fn spec_data(&self) -> Seq<u8> {
        self.spec_region().take(self.spec_len())
    }

    /// The invariant every `MutableBuffer` maintains: the capacity is a
    /// multiple of 64 and the length never exceeds it.
    pub open spec fn wf(&self) -> bool {
        self.spec_len() <= self.spec_capacity() && self.spec_capacity() % 64 == 0
    }

    /// A witness that the invariant holds of every value: the capacity is
    /// a multiple of 64 and the length never exceeds it.
    pub fn check_wf(&self)
        ensures
            self.wf(),
    {
        proof {
            use_type_invariant(self);
        }
    }

    /// Allocates a new mutable buffer whose capacity is `capacity` rounded
    /// up to the next multiple of 64. The region's bytes are unspecified.
    pub fn new(capacity: usize) -> (r: MutableBuffer)
        requires
            capacity + 63 <= usize::MAX,
        ensures
            r.spec_len() == 0,
            r.spec_capacity() == bit_util::spec_round_up_64(capacity as int),
    {
        let actual: usize = bit_util::round_upto_multiple_of_64(capacity);
        MutableBuffer { region: vec![0u8; actual], len: 0 }
    }

    /// The number of bytes written.
    pub fn len(&self) -> (r: usize)
        ensures
            r == self.spec_len(),
    {
        self.len
    }

    /// Whether no bytes have been written.
    pub fn is_empty(&self) -> (r: bool)
        ensures
            r == (self.spec_len() == 0),
    {
        self.len == 0
    }

    /// The total capacity in bytes.
    pub fn capacity(&self) -> (r: usize)
        ensures
            r == self.spec_capacity(),
    {
        self.region.len()
    }

    /// Sets the logical length back to zero; the capacity and the region's
    /// bytes are kept.
    pub fn clear(&mut self)
        ensures
            final(self).spec_len() == 0,
            final(self).spec_capacity() == old(self).spec_capacity(),
            final(self).spec_region() == old(self).spec_region(),
    {
        proof {
            use_type_invariant(&*self);
        }
        self.len = 0;
    }

    /// The written bytes as a slice.
    pub fn data(&self) -> (r: &[u8])
        ensures
            r@ == self.spec_data(),
    {
        proof {
            use_type_invariant(self);
        }
        slice_subrange(self.region.as_slice(), 0, self.len)
    }

    /// The whole addressable region as a slice, `capacity` bytes long.
    pub fn raw_data(&self) -> (r: &[u8])
        ensures
            r@ == self.spec_region(),
    {
        self.region.as_slice()
    }

    /// Grows the capacity to at least `new_capacity` bytes and returns the
    /// new capacity. If `new_capacity` fits already this is a no-op;
    /// otherwise the capacity becomes the larger of `new_capacity` rounded
    /// up to a multiple of 64 and twice the old capacity. The first
    /// `old capacity` bytes of the region are preserved; any grown bytes
    /// are unspecified. The length is unchanged.
    pub fn reserve(&mut self, new_capacity: usize) -> (r: Result<usize, ArrowError>)
        requires
            new_capacity + 63 <= usize::MAX,
            old(self).spec_capacity() * 2 <= usize::MAX,
        ensures
            final(self).spec_len() == old(self).spec_len(),
            final(self).spec_capacity() == spec_grown_capacity(
                old(self).spec_capacity(),
                new_capacity as int,
            ),
            final(self).spec_region().take(old(self).spec_capacity())
                == old(self).spec_region(),
            final(self).spec_data() == old(self).spec_data(),
            r is Ok,
            r == Ok::<usize, ArrowError>((final(self).spec_capacity()) as usize),
    {
        proof {
            use_type_invariant(&*self);
        }
        if new_capacity <= self.region.len() {
            proof {
                assert(self.spec_region().take(self.spec_capacity()) =~= self.spec_region());
            }
            return Ok(self.region.len());
        }
        let rounded: usize = bit_util::round_upto_multiple_of_64(new_capacity);
        let doubled: usize = self.region.len() * 2;
        let target: usize = if rounded > doubled {
            rounded
        } else {
            doubled
        };
        proof {
            let old_cap = old(self).spec_capacity();
            assert(target % 64 == 0 && target >= new_capacity) by (nonlinear_arith)
                requires
                    old_cap % 64 == 0,
                    doubled == old_cap * 2,
                    rounded % 64 == 0,
                    rounded >= new_capacity,
                    new_capacity > old_cap,
                    target == if rounded > doubled { rounded as int } else { doubled as int },
            ;
        }
        let saved_len: usize = self.len;
        self.len = 0;
        let mut region: Vec<u8> = Vec::new();
        std::mem::swap(&mut region, &mut self.region);
        region.resize(target, 0u8);
        self.region = region;
        self.len = saved_len;
        proof {
            assert(final(self).spec_region().take(old(self).spec_capacity())
                =~= old(self).spec_region());
        }
        Ok(target)
    }

    /// Grows the capacity with the same rule as `reserve` and raises the
    /// logical length to `new_len`. The length never shrinks: if `new_len`
    /// is below the current length, the length is unchanged.
    pub fn resize(&mut self, new_len: usize) -> (r: Result<(), ArrowError>)
        requires
            new_len + 63 <= usize::MAX,
            old(self).spec_capacity() * 2 <= usize::MAX,
        ensures
            final(self).spec_len() == if new_len as int > old(self).spec_len() {
                new_len as int
            } else {
                old(self).spec_len()
            },
            final(self).spec_capacity() == if new_len as int > old(self).spec_len() {
                spec_grown_capacity(old(self).spec_capacity(), new_len as int)
            } else {
                old(self).spec_capacity()
            },
            final(self).spec_region().take(old(self).spec_capacity())
                == old(self).spec_region(),
            final(self).spec_data().take(old(self).spec_len()) == old(self).spec_data(),
            r is Ok,
    {
        proof {
            use_type_invariant(&*self);
        }
        if new_len > self.len {
            let reserve_result = self.reserve(new_len);
            if reserve_result.is_err() {
                return Err(ArrowError::MemoryError(
                    "failed to reserve memory".to_owned(),
                ));
            }
            self.len = new_len;
        } else {
            proof {
                assert(self.spec_region().take(self.spec_capacity()) =~= self.spec_region());
            }
        }
        Ok(())
    }

    /// Appends `bytes` at the logical length. Fails with `MemoryError` and
    /// changes nothing when the remaining capacity is insufficient; this
    /// operation never grows the region.
    pub fn write(&mut self, bytes: &[u8]) -> (r: Result<usize, ArrowError>)
        ensures
            bytes@.len() <= old(self).spec_capacity() - old(self).spec_len() ==> {
                &&& r == Ok::<usize, ArrowError>(bytes.len())
                &&& final(self).spec_len() == old(self).spec_len() + bytes@.len()
                &&& final(self).spec_data() == old(self).spec_data() + bytes@
                &&& final(self).spec_region().skip(final(self).spec_len())
                    == old(self).spec_region().skip(final(self).spec_len())
            },
            bytes@.len() > old(self).spec_capacity() - old(self).spec_len() ==> {
                &&& r is Err
                &&& r->Err_0 is MemoryError
                &&& *final(self) == *old(self)
            },
            final(self).spec_capacity() == old(self).spec_capacity(),
    {
        proof {
            use_type_invariant(&*self);
        }
        let remaining: usize = self.region.len() - self.len;
        if bytes.len() > remaining {
            return Err(ArrowError::MemoryError("Buffer not big enough".to_owned()));
        }
        let n: usize = bytes.len();
        let cap: usize = self.region.len();
        let base: usize = self.len;
        let mut i: usize = 0;
        while i < n
            invariant
                0 <= i <= n,
                n == bytes@.len(),
                base == self.len,
                self.len == old(self).spec_len(),
                base + n <= cap,
                cap == self.region@.len(),
                cap == old(self).spec_capacity(),
                self.region@.len() % 64 == 0,
                forall|j: int| 0 <= j < base ==> self.region@[j] == old(self).spec_region()[j],
                forall|j: int| 0 <= j < i ==> self.region@[base + j] == bytes@[j],
                forall|j: int|
                    base + n <= j < cap ==> self.region@[j] == old(self).spec_region()[j],
            decreases n - i,
        {
            let pos: usize = base + i;
            self.region[pos] = bytes[i];
            i = i + 1;
        }
        self.len = base + n;
        proof {
            assert(self.spec_data() =~= old(self).spec_data() + bytes@);
            assert(self.spec_region().skip(self.spec_len()) =~= old(self).spec_region().skip(
                self.spec_len(),
            ));
        }
        Ok(n)
    }

    /// Zeroes `count` bytes of the region starting at byte `start`; every
    /// other byte, the length and the capacity are unchanged.
    pub fn set_null_bits(&mut self, start: usize, count: usize)
        requires
            start + count <= old(self).spec_capacity(),
        ensures
            final(self).spec_len() == old(self).spec_len(),
            final(self).spec_capacity() == old(self).spec_capacity(),
            forall|m: int|
                start <= m < start + count ==> final(self).spec_region()[m] == 0u8,
            forall|m: int|
                0 <= m < final(self).spec_capacity() && !(start <= m < start + count)
                    ==> final(self).spec_region()[m] == old(self).spec_region()[m],
    {
        proof {
            use_type_invariant(&*self);
        }
        let cap: usize = self.region.len();
        let mut i: usize = 0;
        while i < count
            invariant
                0 <= i <= count,
                start + count <= cap,
                cap == self.region@.len(),
                self.len == old(self).spec_len(),
                self.len <= self.region@.len(),
                self.region@.len() == old(self).spec_capacity(),
                self.region@.len() % 64 == 0,
                forall|m: int| start <= m < start + i ==> self.region@[m] == 0u8,
                forall|m: int|
                    0 <= m < self.region@.len() && !(start <= m < start + i)
                        ==> self.region@[m] == old(self).spec_region()[m],
            decreases count - i,
        {
            let pos: usize = start + i;
            self.region[pos] = 0u8;
            i = i + 1;
        }
    }

    /// Reads bit `i` of the region, LSB-0 within each byte.
    pub fn get_bit(&self, i: usize) -> (r: bool)
        requires
            i < self.spec_capacity() * 8,
        ensures
            r == bit_util::nth_bit(self.spec_region(), i as int),
    {
        bit_util::get_bit(self.region.as_slice(), i)
    }

    /// Sets bit `i` of the region to 1; every other bit, the length and the
    /// capacity are unchanged.
    pub fn set_bit(&mut self, i: usize)
        requires
            i < old(self).spec_capacity() * 8,
        ensures
            final(self).spec_len() == old(self).spec_len(),
            final(self).spec_capacity() == old(self).spec_capacity(),
            bit_util::nth_bit(final(self).spec_region(), i as int),
            forall|j: int|
                0 <= j < final(self).spec_capacity() * 8 && j != i
                    ==> bit_util::nth_bit(final(self).spec_region(), j)
                        == bit_util::nth_bit(old(self).spec_region(), j),
    {
        proof {
            use_type_invariant(&*self);
        }
        let saved_len: usize = self.len;
        self.len = 0;
        let mut region: Vec<u8> = Vec::new();
        std::mem::swap(&mut region, &mut self.region);
        bit_util::set_bit(&mut region, i);
        self.region = region;
        self.len = saved_len;
    }

    /// Freezes this buffer into an immutable `Buffer` owning the region;
    /// the frozen buffer holds exactly the written bytes.
    pub fn freeze(self) -> (r: Buffer)
        ensures
            r@ == self.spec_data(),
            r.spec_offset() == 0,
    {
        proof {
            use_type_invariant(&self);
        }
        let MutableBuffer { mut region, len } = self;
        region.truncate(len);
        Buffer { region: Arc::new(region), offset: 0 }
    }
}

/// Basic facts about the buffer model that hold of every value: the
/// capacity and length are non-negative, the region is `capacity` bytes
/// long, and the logical content is `len` bytes when the length fits.
pub proof fn lemma_mutable_buffer_model(b: MutableBuffer)
    ensures
        b.spec_capacity() >= 0,
        b.spec_len() >= 0,
        b.spec_region().len() == b.spec_capacity(),
        b.spec_len() <= b.spec_capacity() ==> b.spec_data().len() == b.spec_len(),
{
}

/// Growth never loses capacity and always covers the request. When the
/// old capacity and the request are small enough relative to the address
/// space, the grown capacity stays addressable with room to spare.
pub proof fn lemma_grown_capacity_bounds(old_capacity: int, requested: int)
    requires
        0 <= old_capacity,
        0 <= requested,
        32 * old_capacity <= usize::MAX,
        128 * requested <= usize::MAX,
    ensures
        spec_grown_capacity(old_capacity, requested) >= old_capacity,
        spec_grown_capacity(old_capacity, requested) >= requested,
        32 * spec_grown_capacity(old_capacity, requested) <= usize::MAX,
        old_capacity % 64 == 0 ==> spec_grown_capacity(old_capacity, requested) % 64 == 0,
{
    if requested > old_capacity {
        crate::bit_util::lemma_round_up_64_bounds(requested);
        if old_capacity % 64 == 0 {
            assert((2 * old_capacity) % 64 == 0) by (nonlinear_arith)
                requires
                    old_capacity % 64 == 0,
            ;
        }
    }
}

/// The capacity that `reserve` / `resize` growth yields: unchanged when the
/// request fits, otherwise the larger of the request rounded up to a
/// multiple of 64 and twice the old capacity.
pub open spec fn spec_grown_capacity(old_capacity: int, requested: int) -> int {
    if requested <= old_capacity {
        old_capacity
    } else {
        let rounded = bit_util::spec_round_up_64(requested);
        if rounded > 2 * old_capacity {
            rounded
        } else {
            2 * old_capacity
        }
    }
}

} // verus!

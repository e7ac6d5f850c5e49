//! Append-only builders: `BufferBuilder<T>` for fixed-width native values,
//! `BooleanBufferBuilder` for bit-packed booleans, and on top of them the
//! array builders producing `PrimitiveArray`, `BooleanArray` and
//! `ListArray` values.
//!
//! Booleans are a separate builder because their storage is bit-packed
//! rather than byte-packed: `push` sets (or leaves clear) one bit of the
//! backing region, and the backing buffer's byte length is only corrected
//! to `ceil(len / 8)` when the builder finishes.

use vstd::prelude::*;
use std::marker::PhantomData;
use crate::array::{BooleanArray, ListArray, PrimitiveArray};
use crate::array_data::{spec_i32_at, spec_i32_seq, spec_offsets_wf, ArrayData};
use crate::bit_util;
use crate::buffer::{spec_grown_capacity, lemma_grown_capacity_bounds, lemma_mutable_buffer_model, Buffer, MutableBuffer};
use crate::datatypes::{spec_dt_equal, spec_le_concat, lemma_le_concat_len, ArrowNativeType, DataType, ToByteSlice};
use crate::error::ArrowError;

verus! {

/// Whether a total of `total_bytes` backing bytes can be asked of a
/// builder: small enough relative to the address space that the doubling
/// growth rule stays addressable.
pub open spec fn spec_reservable(total_bytes: int) -> bool {
    0 <= total_bytes && 128 * total_bytes <= usize::MAX
}

/// Whether a total of `bits` bit slots can be asked of a boolean builder.
pub open spec fn spec_bits_reservable(bits: int) -> bool {
    0 <= bits && 32 * bits <= usize::MAX
}

/// Append-only producer of a `Buffer` holding packed fixed-width values of
/// the native type `T`, little-endian, tightly packed.
pub struct BufferBuilder<T: ArrowNativeType> {
    buffer: MutableBuffer,
    len: i64,
    marker: PhantomData<T>,
}

impl<T: ArrowNativeType> BufferBuilder<T> {
    /// The number of elements (slots) in the builder.
    pub closed spec fn spec_len(&self) -> int {
        self.len as int
    }

    /// The bytes written so far: always `spec_len * byte_width` of them.
    pub closed spec fn spec_data(&self) -> Seq<u8> {
        self.buffer.spec_data()
    }

    /// The capacity of the backing buffer in bytes.
    pub closed spec fn spec_byte_capacity(&self) -> int {
        self.buffer.spec_capacity()
    }

    /// The builder invariant: a non-negative element count whose packed
    /// bytes exactly fill the backing buffer's logical length.
    pub open spec fn wf(&self) -> bool {
        &&& 0 <= self.spec_len()
        &&& self.spec_data().len() == self.spec_len() * T::spec_byte_width()
        &&& 32 * self.spec_byte_capacity() <= usize::MAX
    }

    /// Creates a builder sized for `capacity` elements.
    pub fn new(capacity: i64) -> (r: BufferBuilder<T>)
        requires
            0 <= capacity,
            spec_reservable(capacity * T::spec_byte_width()),
        ensures
            r.wf(),
            r.spec_len() == 0,
            r.spec_data() == Seq::<u8>::empty(),
            r.spec_byte_capacity() == bit_util::spec_round_up_64(
                capacity * T::spec_byte_width(),
            ),
    {
        let w: usize = T::byte_width();
        proof {
            T::lemma_width();
            assert(capacity <= capacity * T::spec_byte_width()) by (nonlinear_arith)
                requires
                    capacity >= 0,
                    T::spec_byte_width() >= 1,
            ;
            bit_util::lemma_round_up_64_bounds(capacity * T::spec_byte_width());
        }
        let byte_capacity: usize = (capacity as usize) * w;
        let buffer = MutableBuffer::new(byte_capacity);
        let r = BufferBuilder { buffer, len: 0, marker: PhantomData };
        proof {
            assert(r.spec_data() =~= Seq::<u8>::empty());
        }
        r
    }

    /// The number of elements in the builder.
    pub fn len(&self) -> (r: i64)
        ensures
            r == self.spec_len(),
    {
        self.len
    }

    /// The capacity in elements: the backing byte capacity divided by the
    /// element width.
    pub fn capacity(&self) -> (r: i64)
        requires
            self.wf(),
        ensures
            r == self.spec_byte_capacity() / T::spec_byte_width(),
    {
        let byte_capacity: usize = self.buffer.capacity();
        let w: usize = T::byte_width();
        proof {
            T::lemma_width();
            assert(byte_capacity as int / (w as int) <= byte_capacity) by (nonlinear_arith)
                requires
                    byte_capacity >= 0,
                    w >= 1,
            ;
        }
        (byte_capacity / w) as i64
    }

    /// Reserves room for `n` more elements, growing the backing buffer by
    /// the doubling rule when needed. The contents are unchanged.
    pub fn reserve(&mut self, n: i64) -> (r: Result<(), ArrowError>)
        requires
            old(self).wf(),
            n >= 0,
            spec_reservable((old(self).spec_len() + n) * T::spec_byte_width()),
        ensures
            final(self).wf(),
            r is Ok,
            final(self).spec_len() == old(self).spec_len(),
            final(self).spec_data() == old(self).spec_data(),
            final(self).spec_byte_capacity() == spec_grown_capacity(
                old(self).spec_byte_capacity(),
                (old(self).spec_len() + n) * T::spec_byte_width(),
            ),
            final(self).spec_byte_capacity() >= (old(self).spec_len() + n)
                * T::spec_byte_width(),
    {
        let w: usize = T::byte_width();
        proof {
            lemma_mutable_buffer_model(self.buffer);
            T::lemma_width();
            let a = self.spec_len();
            let width = T::spec_byte_width();
            assert(a + n <= (a + n) * width) by (nonlinear_arith)
                requires
                    a >= 0,
                    n >= 0,
                    width >= 1,
            ;
            lemma_grown_capacity_bounds(self.spec_byte_capacity(), (a + n) * width);
        }
        let new_capacity: usize = ((self.len + n) as usize) * w;
        let reserve_result = self.buffer.reserve(new_capacity);
        if reserve_result.is_err() {
            return Err(ArrowError::MemoryError(
                "failed to reserve memory".to_owned(),
            ));
        }
        Ok(())
    }

    /// Appends raw bytes standing for `len_added` packed elements. Fails
    /// with `MemoryError` — and changes nothing — when the remaining
    /// capacity is too small; callers reserve first.
    pub fn write_bytes(&mut self, bytes: &[u8], len_added: i64) -> (r: Result<(), ArrowError>)
        requires
            old(self).wf(),
            len_added >= 0,
            bytes@.len() == len_added * T::spec_byte_width(),
        ensures
            final(self).wf(),
            final(self).spec_byte_capacity() == old(self).spec_byte_capacity(),
            bytes@.len() <= old(self).spec_byte_capacity() - old(self).spec_data().len() ==> {
                &&& r is Ok
                &&& final(self).spec_len() == old(self).spec_len() + len_added
                &&& final(self).spec_data() == old(self).spec_data() + bytes@
            },
            bytes@.len() > old(self).spec_byte_capacity() - old(self).spec_data().len() ==> {
                &&& r is Err
                &&& r->Err_0 is MemoryError
                &&& final(self).spec_len() == old(self).spec_len()
                &&& final(self).spec_data() == old(self).spec_data()
            },
    {
        proof {
            use_type_invariant(&self.buffer);
            lemma_mutable_buffer_model(self.buffer);
            T::lemma_width();
            let a = old(self).spec_len();
            let la = len_added as int;
            let width = T::spec_byte_width();
            assert((a + la) * width == a * width + la * width) by (nonlinear_arith);
            assert(a + la <= a * width + la * width) by (nonlinear_arith)
                requires
                    a >= 0,
                    la >= 0,
                    width >= 1,
            ;
        }
        let write_result = self.buffer.write(bytes);
        if write_result.is_err() {
            Err(ArrowError::MemoryError(
                "Could not write to Buffer, not big enough".to_owned(),
            ))
        } else {
            self.len = self.len + len_added;
            Ok(())
        }
    }

    /// Appends one value, growing the backing buffer as needed.
    pub fn push(&mut self, v: T) -> (r: Result<(), ArrowError>)
        requires
            old(self).wf(),
            spec_reservable((old(self).spec_len() + 1) * T::spec_byte_width()),
        ensures
            final(self).wf(),
            r is Ok,
            final(self).spec_len() == old(self).spec_len() + 1,
            final(self).spec_data() == old(self).spec_data() + v.spec_to_le(),
    {
        let reserve_result = self.reserve(1);
        if reserve_result.is_err() {
            proof {
                assert(false);
            }
        }
        proof {
            v.lemma_le_round_trip();
            let a = old(self).spec_len();
            let width = T::spec_byte_width();
            assert((a + 1) * width == a * width + width) by (nonlinear_arith);
        }
        let piece: Vec<u8> = v.to_le_vec();
        let write_result = self.write_bytes(piece.as_slice(), 1);
        proof {
            assert(write_result is Ok);
        }
        Ok(())
    }

    /// Appends a slice of values at once, growing the backing buffer as
    /// needed.
    pub fn push_slice(&mut self, slice: &[T]) -> (r: Result<(), ArrowError>)
        requires
            old(self).wf(),
            spec_reservable((old(self).spec_len() + slice@.len()) * T::spec_byte_width()),
        ensures
            final(self).wf(),
            r is Ok,
            final(self).spec_len() == old(self).spec_len() + slice@.len(),
            final(self).spec_data() == old(self).spec_data() + spec_le_concat(slice@),
    {
        proof {
            T::lemma_width();
            let a = old(self).spec_len();
            let k = slice@.len() as int;
            let width = T::spec_byte_width();
            assert(k <= (a + k) * width) by (nonlinear_arith)
                requires
                    a >= 0,
                    k >= 0,
                    width >= 1,
            ;
        }
        let array_slots: i64 = slice.len() as i64;
        let reserve_result = self.reserve(array_slots);
        if reserve_result.is_err() {
            proof {
                assert(false);
            }
        }
        proof {
            lemma_le_concat_len::<T>(slice@);
            let a = old(self).spec_len();
            let k = slice@.len() as int;
            let width = T::spec_byte_width();
            assert((a + k) * width == a * width + k * width) by (nonlinear_arith);
        }
        let piece: Vec<u8> = slice.to_byte_slice();
        let write_result = self.write_bytes(piece.as_slice(), array_slots);
        proof {
            assert(write_result is Ok);
        }
        Ok(())
    }

    /// Advances the element count by `i` slots whose bytes are left
    /// unspecified; used to skip over null slots that still occupy space.
    pub fn advance(&mut self, i: i64) -> (r: Result<(), ArrowError>)
        requires
            old(self).wf(),
            i >= 0,
            spec_reservable((old(self).spec_len() + i) * T::spec_byte_width()),
        ensures
            final(self).wf(),
            r is Ok,
            final(self).spec_len() == old(self).spec_len() + i,
            final(self).spec_data().len() == (old(self).spec_len() + i) * T::spec_byte_width(),
            final(self).spec_data().take(old(self).spec_data().len() as int)
                == old(self).spec_data(),
    {
        let w: usize = T::byte_width();
        proof {
            lemma_mutable_buffer_model(self.buffer);
            T::lemma_width();
            let width = T::spec_byte_width();
            let a = old(self).spec_len();
            assert(a + i <= (a + i) * width && a * width <= (a + i) * width)
                by (nonlinear_arith)
                requires
                    a >= 0,
                    i >= 0,
                    width >= 1,
            ;
            lemma_grown_capacity_bounds(self.spec_byte_capacity(), (a + i) * width);
        }
        let new_buffer_len: usize = ((self.len + i) as usize) * w;
        let resize_result = self.buffer.resize(new_buffer_len);
        if resize_result.is_err() {
            proof {
                assert(false);
            }
        }
        self.len = self.len + i;
        proof {
            use_type_invariant(&self.buffer);
            lemma_mutable_buffer_model(self.buffer);
        }
        Ok(())
    }

    /// Consumes this builder and returns the packed values as an immutable
    /// buffer whose length is the element count times the element width.
    pub fn finish(self) -> (r: Buffer)
        requires
            self.wf(),
        ensures
            r@ == self.spec_data(),
            r@.len() == self.spec_len() * T::spec_byte_width(),
    {
        self.buffer.freeze()
    }
}

/// Append-only producer of a bit-packed boolean buffer, LSB-0 within each
/// byte. The backing buffer's byte length is corrected to `ceil(len / 8)`
/// only on `finish`; every bit of the region at or beyond `len` is kept
/// clear, so unset bits read as false.
pub struct BooleanBufferBuilder {
    buffer: MutableBuffer,
    len: i64,
}

impl BooleanBufferBuilder {
    /// The number of bit slots pushed.
    pub closed spec fn spec_len(&self) -> int {
        self.len as int
    }

    /// The pushed bits, in order.
    pub closed spec fn spec_bits(&self) -> Seq<bool> {
        bit_util::bit_seq(self.buffer.spec_region(), self.len as int)
    }

    /// The capacity of the backing buffer in bytes.
    pub closed spec fn spec_byte_capacity(&self) -> int {
        self.buffer.spec_capacity()
    }

    /// The backing buffer's logical byte length; corrected only on finish.
    pub closed spec fn spec_byte_len(&self) -> int {
        self.buffer.spec_len()
    }

    /// The builder invariant: the bit count fits the region, the backing
    /// byte length never exceeds the bytes the bits occupy, and every bit
    /// of the region at or beyond `len` is clear.
    pub closed spec fn wf(&self) -> bool {
        &&& 0 <= self.len
        &&& spec_bits_reservable(self.len as int)
        &&& self.len <= self.buffer.spec_capacity() * 8
        &&& self.buffer.spec_len() <= bit_util::spec_ceil(self.len as int, 8)
        &&& 32 * self.buffer.spec_capacity() <= usize::MAX
        &&& forall|j: int|
            self.len <= j < self.buffer.spec_capacity() * 8 ==> !bit_util::nth_bit(
                self.buffer.spec_region(),
                j,
            )
    }

    /// Creates a builder sized for `capacity` bit slots, with the whole
    /// region zeroed.
    pub fn new(capacity: i64) -> (r: BooleanBufferBuilder)
        requires
            spec_bits_reservable(capacity as int),
        ensures
            r.wf(),
            r.spec_len() == 0,
            r.spec_bits() == Seq::<bool>::empty(),
            r.spec_byte_capacity() == bit_util::spec_round_up_64(
                bit_util::spec_ceil(capacity as int, 8),
            ),
    {
        proof {
            bit_util::lemma_ceil_bounds(capacity as int, 8);
            bit_util::lemma_round_up_64_bounds(bit_util::spec_ceil(capacity as int, 8));
        }
        let byte_capacity: i64 = bit_util::ceil(capacity, 8);
        let actual_capacity: usize = bit_util::round_upto_multiple_of_64(byte_capacity as usize);
        let mut buffer = MutableBuffer::new(actual_capacity);
        let cap: usize = buffer.capacity();
        buffer.set_null_bits(0, cap);
        let r = BooleanBufferBuilder { buffer, len: 0 };
        proof {
            assert forall|j: int| 0 <= j < r.buffer.spec_capacity() * 8 implies !bit_util::nth_bit(
                r.buffer.spec_region(),
                j,
            ) by {
                assert(r.buffer.spec_region()[j / 8] == 0u8);
                bit_util::lemma_bit8_zero((j % 8) as u8);
            }
            assert(r.spec_bits() =~= Seq::<bool>::empty());
        }
        r
    }

    /// The number of bit slots pushed.
    pub fn len(&self) -> (r: i64)
        ensures
            r == self.spec_len(),
    {
        self.len
    }

    /// The capacity in bit slots: eight per backing byte.
    pub fn capacity(&self) -> (r: i64)
        requires
            self.wf(),
        ensures
            r == self.spec_byte_capacity() * 8,
    {
        proof {
            lemma_mutable_buffer_model(self.buffer);
        }
        let byte_capacity: usize = self.buffer.capacity();
        (byte_capacity as i64) * 8
    }

    /// Makes room for `n` more bit slots. On growth the newly grown bytes
    /// are zeroed, so their bits read as false. The pushed bits are
    /// unchanged.
    pub fn reserve(&mut self, n: i64) -> (r: Result<(), ArrowError>)
        requires
            old(self).wf(),
            n >= 0,
            spec_bits_reservable(old(self).spec_len() + n),
        ensures
            final(self).wf(),
            r is Ok,
            final(self).spec_len() == old(self).spec_len(),
            final(self).spec_bits() == old(self).spec_bits(),
            final(self).spec_byte_capacity() * 8 >= old(self).spec_len() + n,
            final(self).spec_byte_capacity() >= old(self).spec_byte_capacity(),
            final(self).spec_byte_len() == old(self).spec_byte_len(),
    {
        let new_capacity: i64 = self.len + n;
        let current_bits: i64 = self.capacity();
        if new_capacity > current_bits {
            proof {
                lemma_mutable_buffer_model(self.buffer);
                bit_util::lemma_ceil_bounds(new_capacity as int, 8);
                lemma_grown_capacity_bounds(
                    self.spec_byte_capacity(),
                    bit_util::spec_ceil(new_capacity as int, 8),
                );
            }
            let new_byte_capacity: i64 = bit_util::ceil(new_capacity, 8);
            let existing_capacity: usize = self.buffer.capacity();
            let reserve_result = self.buffer.reserve(new_byte_capacity as usize);
            let grown: usize = match reserve_result {
                Ok(c) => c,
                Err(_) => {
                    proof {
                        assert(false);
                    }
                    0
                },
            };
            let ghost mid_buffer = *(&self.buffer);
            self.buffer.set_null_bits(existing_capacity, grown - existing_capacity);
            proof {
                lemma_mutable_buffer_model(self.buffer);
                lemma_mutable_buffer_model(old(self).buffer);
                lemma_mutable_buffer_model(mid_buffer);
                let mid_region = mid_buffer.spec_region();
                let oldr = old(self).buffer.spec_region();
                let newr = self.buffer.spec_region();
                let e = existing_capacity as int;
                assert(mid_region.take(e) == oldr);
                assert forall|j: int| 0 <= j < e * 8 implies bit_util::nth_bit(newr, j)
                    == bit_util::nth_bit(oldr, j) by {
                    let m = j / 8;
                    bit_util::lemma_bit_index_byte(j, e);
                    assert(mid_region.take(e)[m] == oldr[m]);
                    assert(mid_region[m] == oldr[m]);
                    assert(newr[m] == mid_region[m]);
                }
                assert forall|j: int|
                    self.len <= j < self.buffer.spec_capacity() * 8 implies !bit_util::nth_bit(
                    newr,
                    j,
                ) by {
                    if j < e * 8 {
                    } else {
                        let m = j / 8;
                        bit_util::lemma_bit_index_byte(j, self.buffer.spec_capacity());
                        assert(8 * e <= 8 * m + j % 8) by (nonlinear_arith)
                            requires
                                e * 8 <= j,
                                j == 8 * (j / 8) + j % 8,
                                m == j / 8,
                        ;
                        assert(e <= m) by (nonlinear_arith)
                            requires
                                8 * e <= 8 * m + j % 8,
                                0 <= j % 8 < 8,
                        ;
                        assert(newr[m] == 0u8);
                        bit_util::lemma_bit8_zero((j % 8) as u8);
                    }
                }
                assert(self.spec_bits() =~= old(self).spec_bits());
            }
        } else {
            proof {
                assert(self.spec_bits() =~= old(self).spec_bits());
            }
        }
        Ok(())
    }

    /// Appends one bit slot: a set bit for `true`, an untouched (clear)
    /// bit for `false`.
    pub fn push(&mut self, v: bool) -> (r: Result<(), ArrowError>)
        requires
            old(self).wf(),
            spec_bits_reservable(old(self).spec_len() + 1),
        ensures
            final(self).wf(),
            r is Ok,
            final(self).spec_len() == old(self).spec_len() + 1,
            final(self).spec_bits() == old(self).spec_bits().push(v),
    {
        let reserve_result = self.reserve(1);
        if reserve_result.is_err() {
            proof {
                assert(false);
            }
        }
        if v {
            self.buffer.set_bit(self.len as usize);
        }
        self.len = self.len + 1;
        proof {
            assert(self.spec_bits() =~= old(self).spec_bits().push(v));
        }
        Ok(())
    }

    /// Appends each bit of the slice in order.
    pub fn push_slice(&mut self, slice: &[bool]) -> (r: Result<(), ArrowError>)
        requires
            old(self).wf(),
            spec_bits_reservable(old(self).spec_len() + slice@.len()),
        ensures
            final(self).wf(),
            r is Ok,
            final(self).spec_len() == old(self).spec_len() + slice@.len(),
            final(self).spec_bits() == old(self).spec_bits() + slice@,
    {
        let n: usize = slice.len();
        let mut i: usize = 0;
        proof {
            assert(old(self).spec_bits() + slice@.take(0) =~= old(self).spec_bits());
        }
        while i < n
            invariant
                0 <= i <= n,
                n == slice@.len(),
                self.wf(),
                self.spec_len() == old(self).spec_len() + i,
                spec_bits_reservable(self.spec_len() + (n - i)),
                self.spec_bits() == old(self).spec_bits() + slice@.take(i as int),
            decreases n - i,
        {
            let push_result = self.push(slice[i]);
            proof {
                assert(self.spec_bits() =~= old(self).spec_bits() + slice@.take(i + 1));
            }
            i = i + 1;
        }
        proof {
            assert(slice@.take(n as int) =~= slice@);
        }
        Ok(())
    }

    /// Advances the bit count by `i` slots that read as false.
    pub fn advance(&mut self, i: i64) -> (r: Result<(), ArrowError>)
        requires
            old(self).wf(),
            i >= 0,
            spec_bits_reservable(old(self).spec_len() + i),
        ensures
            final(self).wf(),
            r is Ok,
            final(self).spec_len() == old(self).spec_len() + i,
            final(self).spec_bits() == old(self).spec_bits() + Seq::new(
                i as nat,
                |k: int| false,
            ),
    {
        let reserve_result = self.reserve(i);
        if reserve_result.is_err() {
            proof {
                assert(false);
            }
        }
        let ghost mid = *self;
        proof {
            lemma_mutable_buffer_model(self.buffer);
            bit_util::lemma_ceil_bounds(self.len + i as int, 8);
            bit_util::lemma_ceil_monotone(self.len as int, self.len + i as int, 8);
            bit_util::lemma_ceil8_within(self.len + i as int, self.buffer.spec_capacity());
        }
        let new_buffer_len: i64 = bit_util::ceil(self.len + i, 8);
        let resize_result = self.buffer.resize(new_buffer_len as usize);
        if resize_result.is_err() {
            proof {
                assert(false);
            }
        }
        self.len = self.len + i;
        proof {
            lemma_mutable_buffer_model(self.buffer);
            lemma_mutable_buffer_model(mid.buffer);
            assert(self.buffer.spec_region() =~= mid.buffer.spec_region());
            assert(self.spec_bits() =~= old(self).spec_bits() + Seq::new(
                i as nat,
                |k: int| false,
            ));
        }
        Ok(())
    }

    /// Consumes the builder: the backing byte length becomes exactly
    /// `ceil(len / 8)` and the region is frozen. Bit `i` of the result
    /// equals the `i`-th pushed bit, and the unused tail bits are zero.
    pub fn finish(self) -> (r: Buffer)
        requires
            self.wf(),
        ensures
            r@.len() == bit_util::spec_ceil(self.spec_len(), 8),
            forall|i: int|
                0 <= i < self.spec_len() ==> bit_util::nth_bit(r@, i) == self.spec_bits()[i],
            forall|i: int| self.spec_len() <= i < r@.len() * 8 ==> !bit_util::nth_bit(r@, i),
    {
        let ghost orig = self;
        let mut this = self;
        proof {
            lemma_mutable_buffer_model(this.buffer);
            bit_util::lemma_ceil_bounds(this.len as int, 8);
            bit_util::lemma_ceil_monotone(0, this.len as int, 8);
            bit_util::lemma_ceil8_within(this.len as int, this.buffer.spec_capacity());
        }
        let new_buffer_len: i64 = bit_util::ceil(this.len, 8);
        let resize_result = this.buffer.resize(new_buffer_len as usize);
        if resize_result.is_err() {
            proof {
                assert(false);
            }
        }
        proof {
            lemma_mutable_buffer_model(this.buffer);
            lemma_mutable_buffer_model(orig.buffer);
            assert(this.buffer.spec_region() =~= orig.buffer.spec_region());
        }
        let ghost bits = orig.spec_bits();
        let ghost n = orig.spec_len();
        let r = this.buffer.freeze();
        proof {
            let nb = r@.len() as int;
            assert(nb == bit_util::spec_ceil(n, 8));
            assert(n <= nb * 8);
            assert(this.buffer.spec_region() == orig.buffer.spec_region());
            assert(r@ == this.buffer.spec_region().take(nb));
            assert forall|i: int| 0 <= i < n implies bit_util::nth_bit(r@, i) == bits[i] by {
                let m = i / 8;
                bit_util::lemma_bit_index_byte(i, nb);
                assert(r@[m] == orig.buffer.spec_region()[m]);
            }
            assert forall|i: int| n <= i < nb * 8 implies !bit_util::nth_bit(r@, i) by {
                let m = i / 8;
                bit_util::lemma_bit_index_byte(i, nb);
                assert(r@[m] == orig.buffer.spec_region()[m]);
                assert(i < orig.buffer.spec_capacity() * 8);
                assert(!bit_util::nth_bit(orig.buffer.spec_region(), i));
            }
        }
        r
    }
}

/// Whether `slots` array slots can still be asked of an array builder for
/// native type `T`: both the packed value bytes and the validity bits must
/// stay reservable.
pub open spec fn spec_slots_reservable<T: ArrowNativeType>(slots: int) -> bool {
    spec_reservable(slots * T::spec_byte_width()) && spec_bits_reservable(slots)
}

/// An incremental array builder: it counts slots, knows the logical type
/// of the array it will produce, and can be consumed into that array or
/// into the array's physical data.
pub trait ArrayBuilder: Sized {
    /// The type of array that this builder creates.
    type ArrayType;

    /// The builder's standing invariant.
    spec fn wf(&self) -> bool;

    /// The number of slots appended so far.
    spec fn spec_len(&self) -> int;

    /// The logical type of the produced array.
    spec fn spec_data_type(&self) -> DataType;

    /// The number of array slots in the builder.
    fn len(&self) -> (r: i64)
        requires
            self.wf(),
        ensures
            r == self.spec_len(),
            r >= 0,
    ;

    /// Builds the array.
    fn finish(self) -> (r: Self::ArrayType)
        requires
            self.wf(),
    ;

    /// Builds the array and hands back its physical data.
    fn finish_data(self) -> (d: ArrayData)
        requires
            self.wf(),
        ensures
            d.wf(),
            d.len == self.spec_len(),
            spec_dt_equal(d.data_type, self.spec_data_type()),
    ;
}

/// Array builder for fixed-width primitive types: a values builder paired
/// with a validity bitmap builder of the same slot count.
pub struct PrimitiveArrayBuilder<T: ArrowNativeType> {
    values_builder: BufferBuilder<T>,
    bitmap_builder: BooleanBufferBuilder,
}

impl<T: ArrowNativeType> PrimitiveArrayBuilder<T> {
    /// The number of slots pushed.
    pub closed spec fn spec_len(&self) -> int {
        self.values_builder.spec_len()
    }

    /// The packed value bytes pushed so far.
    pub closed spec fn spec_values(&self) -> Seq<u8> {
        self.values_builder.spec_data()
    }

    /// The validity bits pushed so far: `true` for a value, `false` for a
    /// null slot.
    pub closed spec fn spec_valid_bits(&self) -> Seq<bool> {
        self.bitmap_builder.spec_bits()
    }

    /// The builder invariant: both inner builders are well-formed and the
    /// values builder holds exactly as many slots as the validity builder.
    pub closed spec fn wf(&self) -> bool {
        &&& self.values_builder.wf()
        &&& self.bitmap_builder.wf()
        &&& self.values_builder.spec_len() == self.bitmap_builder.spec_len()
    }

    /// Creates a new primitive array builder sized for `capacity` slots.
    pub fn new(capacity: i64) -> (r: PrimitiveArrayBuilder<T>)
        requires
            0 <= capacity,
            spec_slots_reservable::<T>(capacity as int),
        ensures
            r.wf(),
            r.spec_len() == 0,
            r.spec_values() == Seq::<u8>::empty(),
            r.spec_valid_bits() == Seq::<bool>::empty(),
    {
        PrimitiveArrayBuilder {
            values_builder: BufferBuilder::<T>::new(capacity),
            bitmap_builder: BooleanBufferBuilder::new(capacity),
        }
    }

    /// The capacity of this builder in slots.
    pub fn capacity(&self) -> (r: i64)
        requires
            self.wf(),
    {
        self.values_builder.capacity()
    }

    /// Appends a valid value: the validity builder records `true` and the
    /// values builder records the value's bytes.
    pub fn push(&mut self, v: T) -> (r: Result<(), ArrowError>)
        requires
            old(self).wf(),
            spec_slots_reservable::<T>(old(self).spec_len() + 1),
        ensures
            final(self).wf(),
            r is Ok,
            final(self).spec_len() == old(self).spec_len() + 1,
            final(self).spec_values() == old(self).spec_values() + v.spec_to_le(),
            final(self).spec_valid_bits() == old(self).spec_valid_bits().push(true),
    {
        let bitmap_result = self.bitmap_builder.push(true);
        if bitmap_result.is_err() {
            proof {
                assert(false);
            }
        }
        let values_result = self.values_builder.push(v);
        if values_result.is_err() {
            proof {
                assert(false);
            }
        }
        Ok(())
    }

    /// Appends a null slot: the validity builder records `false` and the
    /// values builder advances one slot whose bytes are unspecified.
    pub fn push_null(&mut self) -> (r: Result<(), ArrowError>)
        requires
            old(self).wf(),
            spec_slots_reservable::<T>(old(self).spec_len() + 1),
        ensures
            final(self).wf(),
            r is Ok,
            final(self).spec_len() == old(self).spec_len() + 1,
            final(self).spec_values().len() == (old(self).spec_len() + 1)
                * T::spec_byte_width(),
            final(self).spec_values().take(old(self).spec_values().len() as int) == old(
                self,
            ).spec_values(),
            final(self).spec_valid_bits() == old(self).spec_valid_bits().push(false),
    {
        let bitmap_result = self.bitmap_builder.push(false);
        if bitmap_result.is_err() {
            proof {
                assert(false);
            }
        }
        let values_result = self.values_builder.advance(1);
        if values_result.is_err() {
            proof {
                assert(false);
            }
        }
        Ok(())
    }

    /// Appends `Some` as a value and `None` as a null slot.
    pub fn push_option(&mut self, v: Option<T>) -> (r: Result<(), ArrowError>)
        requires
            old(self).wf(),
            spec_slots_reservable::<T>(old(self).spec_len() + 1),
        ensures
            final(self).wf(),
            r is Ok,
            final(self).spec_len() == old(self).spec_len() + 1,
            final(self).spec_valid_bits() == old(self).spec_valid_bits().push(v is Some),
            v is Some ==> final(self).spec_values() == old(self).spec_values()
                + v->Some_0.spec_to_le(),
            final(self).spec_values().take(old(self).spec_values().len() as int) == old(
                self,
            ).spec_values(),
            final(self).spec_values().len() == (old(self).spec_len() + 1)
                * T::spec_byte_width(),
    {
        let push_result = match v {
            None => self.push_null(),
            Some(value) => self.push(value),
        };
        if push_result.is_err() {
            proof {
                assert(false);
            }
        }
        proof {
            if v is Some {
                v->Some_0.lemma_le_round_trip();
                T::lemma_width();
                let a = old(self).spec_len();
                let width = T::spec_byte_width();
                assert((a + 1) * width == a * width + width) by (nonlinear_arith);
                assert(final(self).spec_values().take(old(self).spec_values().len() as int)
                    =~= old(self).spec_values());
            }
        }
        Ok(())
    }

    /// Appends every value of the slice as a valid slot.
    pub fn push_slice(&mut self, v: &[T]) -> (r: Result<(), ArrowError>)
        requires
            old(self).wf(),
            spec_slots_reservable::<T>(old(self).spec_len() + v@.len()),
        ensures
            final(self).wf(),
            r is Ok,
            final(self).spec_len() == old(self).spec_len() + v@.len(),
            final(self).spec_values() == old(self).spec_values() + spec_le_concat(v@),
            final(self).spec_valid_bits() == old(self).spec_valid_bits() + Seq::new(
                v@.len(),
                |k: int| true,
            ),
    {
        let trues: Vec<bool> = vec![true; v.len()];
        let bitmap_result = self.bitmap_builder.push_slice(trues.as_slice());
        if bitmap_result.is_err() {
            proof {
                assert(false);
            }
        }
        let values_result = self.values_builder.push_slice(v);
        if values_result.is_err() {
            proof {
                assert(false);
            }
        }
        proof {
            assert(final(self).spec_valid_bits() =~= old(self).spec_valid_bits() + Seq::new(
                v@.len(),
                |k: int| true,
            ));
        }
        Ok(())
    }

    /// Builds the primitive array: one values buffer of the packed bytes,
    /// the validity bitmap as the null bitmap, and the null count computed
    /// as the number of slots minus the number of set validity bits.
    #[verifier::spinoff_prover]
    #[verifier::rlimit(100)]
    pub fn finish_parts(self) -> (r: PrimitiveArray<T>)
        requires
            self.wf(),
        ensures
            r.wf(),
            r.data.len == self.spec_len(),
            r.data.data_type == T::spec_data_type(),
            r.data.offset == 0,
            r.data.null_count == self.spec_len() - bit_util::count_trues(
                self.spec_valid_bits(),
            ),
            r.data.buffers@.len() == 1,
            r.data.buffers@[0]@ == self.spec_values(),
            forall|i: int|
                0 <= i < self.spec_len() ==> r.data.spec_is_null(i) == !self.spec_valid_bits()[i],
    {
        proof {
            T::lemma_width();
            use_type_invariant(&self.values_builder.buffer);
            lemma_mutable_buffer_model(self.values_builder.buffer);
            bit_util::lemma_ceil_bounds(self.spec_len(), 8);
            bit_util::lemma_count_trues_bounds(self.spec_valid_bits());
            let a = self.spec_len();
            let width = T::spec_byte_width();
            assert(a <= a * width && a * width <= a * 8) by (nonlinear_arith)
                requires
                    a >= 0,
                    1 <= width <= 8,
            ;
            assert(a * 8 <= usize::MAX);
        }
        let len: i64 = self.values_builder.len();
        let ghost valid_bits = self.bitmap_builder.spec_bits();
        let null_bit_buffer: Buffer = self.bitmap_builder.finish();
        proof {
            assert(bit_util::bit_seq(null_bit_buffer@, len as int) =~= valid_bits);
            bit_util::lemma_count_trues_zero_tail(
                null_bit_buffer@,
                len as int,
                null_bit_buffer@.len() as int * 8,
            );
        }
        let set_bits: i64 = bit_util::count_set_bits(null_bit_buffer.data());
        let null_count: i64 = len - set_bits;
        let values: Buffer = self.values_builder.finish();
        let mut buffers: Vec<Buffer> = Vec::new();
        buffers.push(values);
        let data = ArrayData {
            data_type: T::data_type(),
            len,
            null_count,
            offset: 0,
            null_bitmap: Some(null_bit_buffer),
            buffers,
            child_data: Vec::new(),
        };
        proof {
            assert(data.len * 8 <= usize::MAX);
            assert(0 <= data.null_count <= data.len);
            assert(crate::array_data::spec_fixed_width(data.data_type) == Some(
                T::spec_byte_width(),
            ));
            assert(data.buffers@.len() == 1 && data.buffers@[0]@.len() == data.len
                * T::spec_byte_width());
            assert(data.wf());
        }
        PrimitiveArray::from_data(data)
    }
}

impl<T: ArrowNativeType> ArrayBuilder for PrimitiveArrayBuilder<T> {
    type ArrayType = PrimitiveArray<T>;

    open spec fn wf(&self) -> bool {
        PrimitiveArrayBuilder::wf(self)
    }

    open spec fn spec_len(&self) -> int {
        PrimitiveArrayBuilder::spec_len(self)
    }

    open spec fn spec_data_type(&self) -> DataType {
        T::spec_data_type()
    }

    fn len(&self) -> (r: i64) {
        self.values_builder.len()
    }

    /// Builds the `PrimitiveArray`.
    fn finish(self) -> (r: PrimitiveArray<T>)
        ensures
            r.wf(),
            r.data.len == self.spec_len(),
            r.data.data_type == T::spec_data_type(),
            r.data.offset == 0,
            r.data.null_count == self.spec_len() - bit_util::count_trues(
                self.spec_valid_bits(),
            ),
            r.data.buffers@.len() == 1,
            r.data.buffers@[0]@ == self.spec_values(),
            forall|i: int|
                0 <= i < self.spec_len() ==> r.data.spec_is_null(i) == !self.spec_valid_bits()[i],
    {
        self.finish_parts()
    }

    fn finish_data(self) -> (d: ArrayData)
        ensures
            d.data_type == T::spec_data_type(),
            d.offset == 0,
            d.null_count == self.spec_len() - bit_util::count_trues(self.spec_valid_bits()),
            d.buffers@.len() == 1,
            d.buffers@[0]@ == self.spec_values(),
            forall|i: int|
                0 <= i < self.spec_len() ==> d.spec_is_null(i) == !self.spec_valid_bits()[i],
    {
        proof {
            crate::datatypes::lemma_dt_equal_refl(T::spec_data_type());
        }
        let array = self.finish_parts();
        array.data
    }
}

impl<T: ArrowNativeType> PrimitiveArray<T> {
    /// Builds an array from optional values: `Some` becomes a valid slot
    /// holding the value, `None` a null slot.
    #[verifier::spinoff_prover]
    #[verifier::rlimit(100)]
    pub fn from(v: Vec<Option<T>>) -> (r: PrimitiveArray<T>)
        requires
            spec_slots_reservable::<T>(v@.len() as int),
        ensures
            r.wf(),
            r.data.len == v@.len(),
            r.data.offset == 0,
            forall|i: int| 0 <= i < v@.len() ==> r.data.spec_is_null(i) == (v@[i] is None),
            forall|i: int|
                0 <= i < v@.len() && v@[i] is Some ==> r.spec_value(i) == v@[i]->Some_0,
    {
        proof {
            T::lemma_width();
        }
        let ghost width = T::spec_byte_width();
        let n: usize = v.len();
        let mut builder = PrimitiveArrayBuilder::<T>::new(n as i64);
        let mut i: usize = 0;
        while i < n
            invariant
                0 <= i <= n,
                n == v@.len(),
                spec_slots_reservable::<T>(n as int),
                1 <= width <= 8,
                width == T::spec_byte_width(),
                builder.wf(),
                builder.spec_len() == i,
                builder.spec_valid_bits().len() == i,
                builder.spec_values().len() == i * width,
                forall|k: int| 0 <= k < i ==> builder.spec_valid_bits()[k] == (v@[k] is Some),
                forall|k: int|
                    0 <= k < i && v@[k] is Some ==> builder.spec_values().subrange(
                        k * width,
                        (k + 1) * width,
                    ) == (v@[k]->Some_0).spec_to_le(),
            decreases n - i,
        {
            let ghost prev = builder;
            proof {
                assert((i + 1) * width <= n * width && i * width + width == (i + 1) * width)
                    by (nonlinear_arith)
                    requires
                        0 <= i < n,
                        1 <= width,
                ;
            }
            let push_result = builder.push_option(v[i]);
            if push_result.is_err() {
                proof {
                    assert(false);
                }
            }
            proof {
                if v@[i as int] is Some {
                    (v@[i as int]->Some_0).lemma_le_round_trip();
                }
                assert(builder.spec_values().take(prev.spec_values().len() as int)
                    == prev.spec_values());
                assert(prev.spec_values().len() == i * width);
                assert forall|m: int| 0 <= m < i * width implies builder.spec_values()[m]
                    == prev.spec_values()[m] by {
                    assert(builder.spec_values().take(i * width)[m]
                        == builder.spec_values()[m]);
                    assert(builder.spec_values().take(prev.spec_values().len() as int)[m]
                        == prev.spec_values()[m]);
                }
                assert forall|k: int| 0 <= k < i && v@[k] is Some implies builder.spec_values()
                    .subrange(k * width, (k + 1) * width) == (v@[k]->Some_0).spec_to_le() by {
                    assert((k + 1) * width <= i * width && k * width + width == (k + 1)
                        * width && k * width >= 0) by (nonlinear_arith)
                        requires
                            0 <= k < i,
                            1 <= width,
                    ;
                    assert(builder.spec_values().subrange(k * width, (k + 1) * width)
                        =~= prev.spec_values().subrange(k * width, (k + 1) * width));
                }
                if v@[i as int] is Some {
                    assert(builder.spec_values().subrange(i as int * width, (i + 1) * width)
                        =~= (v@[i as int]->Some_0).spec_to_le());
                }
            }
            i = i + 1;
        }
        let array = builder.finish_parts();
        proof {
            assert forall|k: int| 0 <= k < v@.len() && v@[k] is Some implies array.spec_value(k)
                == v@[k]->Some_0 by {
                (v@[k]->Some_0).lemma_le_round_trip();
            }
        }
        array
    }

    /// A builder for arrays of this native type, sized for `capacity`
    /// slots.
    pub fn builder(capacity: i64) -> (r: PrimitiveArrayBuilder<T>)
        requires
            0 <= capacity,
            spec_slots_reservable::<T>(capacity as int),
        ensures
            r.wf(),
            r.spec_len() == 0,
            r.spec_values() == Seq::<u8>::empty(),
            r.spec_valid_bits() == Seq::<bool>::empty(),
    {
        PrimitiveArrayBuilder::<T>::new(capacity)
    }
}

/// Array builder for bit-packed boolean arrays: a bit-packed values
/// builder paired with a validity bitmap builder of the same slot count.
pub struct BooleanArrayBuilder {
    values_builder: BooleanBufferBuilder,
    bitmap_builder: BooleanBufferBuilder,
}

impl BooleanArrayBuilder {
    /// The number of slots pushed.
    pub closed spec fn spec_len(&self) -> int {
        self.values_builder.spec_len()
    }

    /// The values pushed so far, in order.
    pub closed spec fn spec_value_bits(&self) -> Seq<bool> {
        self.values_builder.spec_bits()
    }

    /// The validity bits pushed so far.
    pub closed spec fn spec_valid_bits(&self) -> Seq<bool> {
        self.bitmap_builder.spec_bits()
    }

    /// The builder invariant: both inner builders are well-formed with the
    /// same slot count.
    pub closed spec fn wf(&self) -> bool {
        &&& self.values_builder.wf()
        &&& self.bitmap_builder.wf()
        &&& self.values_builder.spec_len() == self.bitmap_builder.spec_len()
    }

    /// Creates a new boolean array builder sized for `capacity` slots.
    pub fn new(capacity: i64) -> (r: BooleanArrayBuilder)
        requires
            0 <= capacity,
            spec_bits_reservable(capacity as int),
        ensures
            r.wf(),
            r.spec_len() == 0,
            r.spec_value_bits() == Seq::<bool>::empty(),
            r.spec_valid_bits() == Seq::<bool>::empty(),
    {
        BooleanArrayBuilder {
            values_builder: BooleanBufferBuilder::new(capacity),
            bitmap_builder: BooleanBufferBuilder::new(capacity),
        }
    }

    /// The capacity of this builder in slots.
    pub fn capacity(&self) -> (r: i64)
        requires
            self.wf(),
    {
        self.values_builder.capacity()
    }

    /// Appends a valid boolean value.
    pub fn push(&mut self, v: bool) -> (r: Result<(), ArrowError>)
        requires
            old(self).wf(),
            spec_bits_reservable(old(self).spec_len() + 1),
        ensures
            final(self).wf(),
            r is Ok,
            final(self).spec_len() == old(self).spec_len() + 1,
            final(self).spec_value_bits() == old(self).spec_value_bits().push(v),
            final(self).spec_valid_bits() == old(self).spec_valid_bits().push(true),
    {
        let bitmap_result = self.bitmap_builder.push(true);
        if bitmap_result.is_err() {
            proof {
                assert(false);
            }
        }
        let values_result = self.values_builder.push(v);
        if values_result.is_err() {
            proof {
                assert(false);
            }
        }
        Ok(())
    }

    /// Appends a null slot; its value bit reads as false.
    pub fn push_null(&mut self) -> (r: Result<(), ArrowError>)
        requires
            old(self).wf(),
            spec_bits_reservable(old(self).spec_len() + 1),
        ensures
            final(self).wf(),
            r is Ok,
            final(self).spec_len() == old(self).spec_len() + 1,
            final(self).spec_value_bits() == old(self).spec_value_bits().push(false),
            final(self).spec_valid_bits() == old(self).spec_valid_bits().push(false),
    {
        let bitmap_result = self.bitmap_builder.push(false);
        if bitmap_result.is_err() {
            proof {
                assert(false);
            }
        }
        let values_result = self.values_builder.advance(1);
        if values_result.is_err() {
            proof {
                assert(false);
            }
        }
        proof {
            assert(self.spec_value_bits() =~= old(self).spec_value_bits().push(false));
        }
        Ok(())
    }

    /// Appends `Some` as a value and `None` as a null slot.
    pub fn push_option(&mut self, v: Option<bool>) -> (r: Result<(), ArrowError>)
        requires
            old(self).wf(),
            spec_bits_reservable(old(self).spec_len() + 1),
        ensures
            final(self).wf(),
            r is Ok,
            final(self).spec_len() == old(self).spec_len() + 1,
            final(self).spec_valid_bits() == old(self).spec_valid_bits().push(v is Some),
            final(self).spec_value_bits() == old(self).spec_value_bits().push(
                v is Some && v->Some_0,
            ),
    {
        let push_result = match v {
            None => self.push_null(),
            Some(value) => self.push(value),
        };
        if push_result.is_err() {
            proof {
                assert(false);
            }
        }
        Ok(())
    }

    /// Appends every value of the slice as a valid slot.
    pub fn push_slice(&mut self, v: &[bool]) -> (r: Result<(), ArrowError>)
        requires
            old(self).wf(),
            spec_bits_reservable(old(self).spec_len() + v@.len()),
        ensures
            final(self).wf(),
            r is Ok,
            final(self).spec_len() == old(self).spec_len() + v@.len(),
            final(self).spec_value_bits() == old(self).spec_value_bits() + v@,
            final(self).spec_valid_bits() == old(self).spec_valid_bits() + Seq::new(
                v@.len(),
                |k: int| true,
            ),
    {
        let trues: Vec<bool> = vec![true; v.len()];
        let bitmap_result = self.bitmap_builder.push_slice(trues.as_slice());
        if bitmap_result.is_err() {
            proof {
                assert(false);
            }
        }
        let values_result = self.values_builder.push_slice(v);
        if values_result.is_err() {
            proof {
                assert(false);
            }
        }
        proof {
            assert(final(self).spec_valid_bits() =~= old(self).spec_valid_bits() + Seq::new(
                v@.len(),
                |k: int| true,
            ));
        }
        Ok(())
    }

    /// Builds the boolean array: a bit-packed values buffer, the validity
    /// bitmap as the null bitmap, and the computed null count.
    #[verifier::spinoff_prover]
    #[verifier::rlimit(100)]
    pub fn finish_parts(self) -> (r: BooleanArray)
        requires
            self.wf(),
        ensures
            r.wf(),
            r.data.len == self.spec_len(),
            r.data.data_type == DataType::Boolean,
            r.data.offset == 0,
            r.data.null_count == self.spec_len() - bit_util::count_trues(
                self.spec_valid_bits(),
            ),
            r.data.buffers@.len() == 1,
            forall|i: int|
                0 <= i < self.spec_len() ==> r.spec_value(i) == self.spec_value_bits()[i],
            forall|i: int|
                0 <= i < self.spec_len() ==> r.data.spec_is_null(i) == !self.spec_valid_bits()[i],
    {
        proof {
            bit_util::lemma_ceil_bounds(self.spec_len(), 8);
            bit_util::lemma_count_trues_bounds(self.spec_valid_bits());
        }
        let len: i64 = self.values_builder.len();
        let ghost valid_bits = self.bitmap_builder.spec_bits();
        let null_bit_buffer: Buffer = self.bitmap_builder.finish();
        proof {
            assert(bit_util::bit_seq(null_bit_buffer@, len as int) =~= valid_bits);
            bit_util::lemma_count_trues_zero_tail(
                null_bit_buffer@,
                len as int,
                null_bit_buffer@.len() as int * 8,
            );
        }
        let set_bits: i64 = bit_util::count_set_bits(null_bit_buffer.data());
        let null_count: i64 = len - set_bits;
        let values: Buffer = self.values_builder.finish();
        let mut buffers: Vec<Buffer> = Vec::new();
        buffers.push(values);
        let data = ArrayData {
            data_type: DataType::Boolean,
            len,
            null_count,
            offset: 0,
            null_bitmap: Some(null_bit_buffer),
            buffers,
            child_data: Vec::new(),
        };
        proof {
            assert(data.len * 8 <= usize::MAX);
            assert(0 <= data.null_count <= data.len);
            assert(data.wf());
        }
        BooleanArray::from_data(data)
    }
}

impl ArrayBuilder for BooleanArrayBuilder {
    type ArrayType = BooleanArray;

    open spec fn wf(&self) -> bool {
        BooleanArrayBuilder::wf(self)
    }

    open spec fn spec_len(&self) -> int {
        BooleanArrayBuilder::spec_len(self)
    }

    open spec fn spec_data_type(&self) -> DataType {
        DataType::Boolean
    }

    fn len(&self) -> (r: i64) {
        self.values_builder.len()
    }

    /// Builds the `BooleanArray`.
    fn finish(self) -> (r: BooleanArray)
        ensures
            r.wf(),
            r.data.len == self.spec_len(),
            r.data.data_type == DataType::Boolean,
            r.data.offset == 0,
            r.data.null_count == self.spec_len() - bit_util::count_trues(
                self.spec_valid_bits(),
            ),
            forall|i: int|
                0 <= i < self.spec_len() ==> r.spec_value(i) == self.spec_value_bits()[i],
            forall|i: int|
                0 <= i < self.spec_len() ==> r.data.spec_is_null(i) == !self.spec_valid_bits()[i],
    {
        self.finish_parts()
    }

    fn finish_data(self) -> (d: ArrayData)
        ensures
            d.data_type == DataType::Boolean,
            d.offset == 0,
            d.null_count == self.spec_len() - bit_util::count_trues(self.spec_valid_bits()),
            forall|i: int|
                0 <= i < self.spec_len() ==> d.spec_is_null(i) == !self.spec_valid_bits()[i],
    {
        let array = self.finish_parts();
        array.data
    }
}

impl BooleanArray {
    /// A builder for boolean arrays, sized for `capacity` slots.
    pub fn builder(capacity: i64) -> (r: BooleanArrayBuilder)
        requires
            0 <= capacity,
            spec_bits_reservable(capacity as int),
        ensures
            r.wf(),
            r.spec_len() == 0,
            r.spec_value_bits() == Seq::<bool>::empty(),
            r.spec_valid_bits() == Seq::<bool>::empty(),
    {
        BooleanArrayBuilder::new(capacity)
    }
}

/// Appending four little-endian bytes to a packed `i32` buffer keeps every
/// existing entry and appends one decoded entry.
proof fn lemma_i32_entries_extend(data: Seq<u8>, piece: Seq<u8>, n: int)
    requires
        0 <= n,
        data.len() == 4 * n,
        piece.len() == 4,
    ensures
        forall|k: int| 0 <= k < n ==> spec_i32_at(data + piece, k) == #[trigger] spec_i32_at(
            data,
            k,
        ),
        spec_i32_at(data + piece, n) == vstd::bytes::spec_u32_from_le_bytes(piece) as i32,
{
    assert forall|k: int| 0 <= k < n implies spec_i32_at(data + piece, k)
        == #[trigger] spec_i32_at(data, k) by {
        assert((data + piece).subrange(4 * k, 4 * k + 4) =~= data.subrange(4 * k, 4 * k + 4));
    }
    assert((data + piece).subrange(4 * n, 4 * n + 4) =~= piece);
}

/// Array builder for `ListArray`: wraps a child array builder with an
/// `i32` offsets builder (seeded with a single zero) and a validity bitmap
/// builder. Each `append` closes the current list slot by recording the
/// child's length as the next offset.
pub struct ListArrayBuilder<T: ArrayBuilder> {
    offsets_builder: BufferBuilder<i32>,
    bitmap_builder: BooleanBufferBuilder,
    values_builder: T,
    len: i64,
}

impl<T: ArrayBuilder> ListArrayBuilder<T> {
    /// The number of list slots closed so far.
    pub closed spec fn spec_len(&self) -> int {
        self.len as int
    }

    /// The recorded offsets, `spec_len() + 1` of them.
    pub closed spec fn spec_offsets(&self) -> Seq<i32> {
        spec_i32_seq(self.offsets_builder.spec_data(), self.len + 1)
    }

    /// The validity bits of the closed slots.
    pub closed spec fn spec_valid_bits(&self) -> Seq<bool> {
        self.bitmap_builder.spec_bits()
    }

    /// The child builder holding the list elements.
    pub closed spec fn spec_child(&self) -> T {
        self.values_builder
    }

    /// The inner bookkeeping invariant: the offsets builder holds exactly
    /// `len + 1` entries and the bitmap builder exactly `len` bits.
    pub closed spec fn spec_parts_wf(&self) -> bool {
        &&& 0 <= self.len
        &&& self.offsets_builder.wf()
        &&& self.offsets_builder.spec_len() == self.len + 1
        &&& self.bitmap_builder.wf()
        &&& self.bitmap_builder.spec_len() == self.len
    }

    /// The builder invariant: the bookkeeping holds, the child builder is
    /// well-formed, and the offsets start at zero, never decrease, and
    /// stay within the child's current length.
    pub open spec fn wf(&self) -> bool {
        &&& self.spec_parts_wf()
        &&& self.spec_child().wf()
        &&& self.spec_offsets()[0] == 0
        &&& forall|k: int|
            0 <= k < self.spec_len() ==> #[trigger] self.spec_offsets()[k]
                <= self.spec_offsets()[k + 1]
        &&& forall|k: int|
            0 <= k <= self.spec_len() ==> 0 <= #[trigger] self.spec_offsets()[k]
                <= self.spec_child().spec_len()
    }

    /// Whether every child element is covered by a closed slot: the last
    /// offset equals the child's length. This holds right after `append`
    /// and is what `finish` expects of a builder driven by the documented
    /// protocol.
    pub open spec fn spec_synced(&self) -> bool {
        self.spec_offsets()[self.spec_len()] == self.spec_child().spec_len()
    }

    /// Creates a new `ListArrayBuilder` around a child values builder.
    pub fn new(values_builder: T) -> (r: ListArrayBuilder<T>)
        requires
            values_builder.wf(),
            spec_reservable((values_builder.spec_len() + 2) * 4),
            spec_bits_reservable(values_builder.spec_len() + 1),
        ensures
            r.wf(),
            r.spec_len() == 0,
            r.spec_offsets().len() == 1,
            r.spec_offsets()[0] == 0,
            r.spec_valid_bits() == Seq::<bool>::empty(),
            r.spec_child() == values_builder,
    {
        let child_len: i64 = values_builder.len();
        let mut offsets_builder = BufferBuilder::<i32>::new(child_len + 1);
        let push_result = offsets_builder.push(0);
        if push_result.is_err() {
            proof {
                assert(false);
            }
        }
        let bitmap_builder = BooleanBufferBuilder::new(child_len);
        let r = ListArrayBuilder { offsets_builder, bitmap_builder, values_builder, len: 0 };
        proof {
            let v: i32 = 0;
            v.lemma_le_round_trip();
            lemma_i32_entries_extend(Seq::<u8>::empty(), v.spec_to_le(), 0);
            assert(Seq::<u8>::empty() + v.spec_to_le() =~= v.spec_to_le());
            assert(r.spec_offsets()[0] == 0);
        }
        r
    }

    /// The child array builder, handed out mutably so that list elements
    /// can be pushed into it; `append` then closes each list slot.
    pub fn values(&mut self) -> (r: &mut T)
        ensures
            *r == old(self).spec_child(),
            final(self).spec_child() == *final(r),
            final(self).spec_len() == old(self).spec_len(),
            final(self).spec_offsets() == old(self).spec_offsets(),
            final(self).spec_valid_bits() == old(self).spec_valid_bits(),
            final(self).spec_parts_wf() == old(self).spec_parts_wf(),
    {
        &mut self.values_builder
    }

    /// Closes the current list slot: records the child's current length as
    /// the next offset and the slot's validity bit. A null slot is closed
    /// with `is_valid == false` and no new child elements, which leaves a
    /// zero-length run.
    pub fn append(&mut self, is_valid: bool) -> (r: Result<(), ArrowError>)
        requires
            old(self).wf(),
            spec_reservable((old(self).spec_len() + 2) * 4),
            spec_bits_reservable(old(self).spec_len() + 1),
            old(self).spec_child().spec_len() <= i32::MAX,
        ensures
            final(self).wf(),
            r is Ok,
            final(self).spec_len() == old(self).spec_len() + 1,
            final(self).spec_offsets() == old(self).spec_offsets().push(
                (old(self).spec_child().spec_len()) as i32,
            ),
            final(self).spec_valid_bits() == old(self).spec_valid_bits().push(is_valid),
            final(self).spec_child() == old(self).spec_child(),
            final(self).spec_synced(),
    {
        let child_len: i64 = self.values_builder.len();
        let v: i32 = child_len as i32;
        let ghost old_data = self.offsets_builder.spec_data();
        let offsets_result = self.offsets_builder.push(v);
        if offsets_result.is_err() {
            proof {
                assert(false);
            }
        }
        let bitmap_result = self.bitmap_builder.push(is_valid);
        if bitmap_result.is_err() {
            proof {
                assert(false);
            }
        }
        self.len = self.len + 1;
        proof {
            v.lemma_le_round_trip();
            lemma_i32_entries_extend(old_data, v.spec_to_le(), old(self).spec_len() + 1);
            assert(final(self).spec_offsets() =~= old(self).spec_offsets().push(v));
        }
        Ok(())
    }

    /// Builds the list array's physical data: the offsets as the single
    /// data buffer, the finished child as the single child array, and the
    /// validity bitmap as the null bitmap.
    #[verifier::spinoff_prover]
    #[verifier::rlimit(100)]
    pub fn finish_parts(self) -> (d: ArrayData)
        requires
            self.wf(),
        ensures
            d.wf(),
            d.data_type is List,
            d.len == self.spec_len(),
            d.offset == 0,
            d.null_count == self.spec_len() - bit_util::count_trues(self.spec_valid_bits()),
            d.buffers@.len() == 1,
            spec_i32_seq(d.buffers@[0]@, d.len + 1) == self.spec_offsets(),
            d.child_data@.len() == 1,
            d.child_data@[0].len == self.spec_child().spec_len(),
            spec_dt_equal(d.child_data@[0].data_type, self.spec_child().spec_data_type()),
            self.spec_synced() ==> spec_i32_seq(d.buffers@[0]@, d.len + 1)[d.len as int]
                == d.child_data@[0].len,
            forall|i: int|
                0 <= i < self.spec_len() ==> d.spec_is_null(i) == !self.spec_valid_bits()[i],
    {
        proof {
            bit_util::lemma_ceil_bounds(self.spec_len(), 8);
            bit_util::lemma_count_trues_bounds(self.spec_valid_bits());
        }
        let ListArrayBuilder { offsets_builder, bitmap_builder, values_builder, len } = self;
        let values_data: ArrayData = values_builder.finish_data();
        let ghost valid_bits = bitmap_builder.spec_bits();
        let null_bit_buffer: Buffer = bitmap_builder.finish();
        proof {
            assert(bit_util::bit_seq(null_bit_buffer@, len as int) =~= valid_bits);
            bit_util::lemma_count_trues_zero_tail(
                null_bit_buffer@,
                len as int,
                null_bit_buffer@.len() as int * 8,
            );
        }
        let set_bits: i64 = bit_util::count_set_bits(null_bit_buffer.data());
        let null_count: i64 = len - set_bits;
        let offsets_buffer: Buffer = offsets_builder.finish();
        let child_type: DataType = values_data.data_type.clone();
        proof {
            crate::datatypes::lemma_dt_equal_sym(child_type, values_data.data_type);
        }
        let data_type = DataType::List(Box::new(child_type));
        let mut buffers: Vec<Buffer> = Vec::new();
        buffers.push(offsets_buffer);
        let mut child_data: Vec<ArrayData> = Vec::new();
        child_data.push(values_data);
        let d = ArrayData {
            data_type,
            len,
            null_count,
            offset: 0,
            null_bitmap: Some(null_bit_buffer),
            buffers,
            child_data,
        };
        proof {
            assert(d.len * 8 <= usize::MAX);
            assert(0 <= d.null_count <= d.len);
            assert(spec_i32_seq(d.buffers@[0]@, d.len + 1) =~= self.spec_offsets());
            assert(spec_offsets_wf(
                spec_i32_seq(d.buffers@[0]@, d.len + 1),
                d.child_data@[0].len as int,
            ));
            assert(d.wf());
        }
        d
    }
}

impl<T: ArrayBuilder> ArrayBuilder for ListArrayBuilder<T> {
    type ArrayType = ListArray;

    open spec fn wf(&self) -> bool {
        ListArrayBuilder::wf(self)
    }

    open spec fn spec_len(&self) -> int {
        ListArrayBuilder::spec_len(self)
    }

    open spec fn spec_data_type(&self) -> DataType {
        DataType::List(Box::new(self.spec_child().spec_data_type()))
    }

    fn len(&self) -> (r: i64) {
        self.len
    }

    /// Builds the `ListArray`.
    fn finish(self) -> (r: ListArray)
        ensures
            r.wf(),
            r.data.len == self.spec_len(),
            r.data.offset == 0,
            r.data.null_count == self.spec_len() - bit_util::count_trues(
                self.spec_valid_bits(),
            ),
            spec_i32_seq(r.data.buffers@[0]@, r.data.len + 1) == self.spec_offsets(),
            r.data.child_data@.len() == 1,
            r.data.child_data@[0].len == self.spec_child().spec_len(),
            spec_dt_equal(
                r.data.child_data@[0].data_type,
                self.spec_child().spec_data_type(),
            ),
            self.spec_synced() ==> spec_i32_seq(r.data.buffers@[0]@, r.data.len + 1)[
                r.data.len as int] == r.data.child_data@[0].len,
            forall|i: int|
                0 <= i < self.spec_len() ==> r.data.spec_is_null(i) == !self.spec_valid_bits()[i],
    {
        ListArray::from_data(self.finish_parts())
    }

    fn finish_data(self) -> (d: ArrayData)
        ensures
            d.offset == 0,
            d.null_count == self.spec_len() - bit_util::count_trues(self.spec_valid_bits()),
            spec_i32_seq(d.buffers@[0]@, d.len + 1) == self.spec_offsets(),
            d.child_data@.len() == 1,
            d.child_data@[0].len == self.spec_child().spec_len(),
            forall|i: int|
                0 <= i < self.spec_len() ==> d.spec_is_null(i) == !self.spec_valid_bits()[i],
    {
        let d = self.finish_parts();
        proof {
            let inner = d.data_type->List_0;
            crate::datatypes::lemma_dt_equal_sym(d.child_data@[0].data_type, *inner);
            crate::datatypes::lemma_dt_equal_trans(
                *inner,
                d.child_data@[0].data_type,
                self.spec_child().spec_data_type(),
            );
        }
        d
    }
}

} // verus!

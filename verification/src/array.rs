//! Typed, read-only array views over an `ArrayData`: `PrimitiveArray<T>`
//! for fixed-width primitives, `BooleanArray` for bit-packed booleans and
//! `ListArray` for variable-length lists. The views add element accessors
//! and never mutate the underlying data.

use vstd::prelude::*;
use vstd::slice::slice_subrange;
use std::marker::PhantomData;
use crate::array_data::{spec_fixed_width, spec_i32_at, spec_i32_seq, ArrayData};
use crate::bit_util;
use crate::buffer::Buffer;
use crate::datatypes::{spec_dt_equal, ArrowNativeType, DataType};

verus! {

/// A typed view over the data of a fixed-width primitive array.
#[derive(Debug)]
pub struct PrimitiveArray<T: ArrowNativeType> {
    pub data: ArrayData,
    pub marker: PhantomData<T>,
}

impl<T: ArrowNativeType> PrimitiveArray<T> {
    /// Well-formed: the data is well-formed, carries this native type's
    /// logical tag, and that tag is a fixed-width primitive of the native
    /// type's byte width.
    pub open spec fn wf(&self) -> bool {
        &&& self.data.wf()
        &&& self.data.data_type == T::spec_data_type()
        &&& spec_fixed_width(T::spec_data_type()) == Some(T::spec_byte_width())
    }

    /// The raw little-endian bytes of the value in slot `i`.
    pub open spec fn spec_value_bytes(&self, i: int) -> Seq<u8> {
        self.data.buffers@[0]@.subrange(
            i * T::spec_byte_width(),
            (i + 1) * T::spec_byte_width(),
        )
    }

    /// The value in slot `i`, reinterpreted from its bytes.
    pub open spec fn spec_value(&self, i: int) -> T {
        T::spec_from_le(self.spec_value_bytes(i))
    }

    /// Wraps well-formed array data in a typed view.
    pub fn from_data(data: ArrayData) -> (r: PrimitiveArray<T>)
        ensures
            r.data == data,
    {
        PrimitiveArray { data, marker: PhantomData }
    }

    /// The underlying array data.
    pub fn data(&self) -> (r: &ArrayData)
        ensures
            r == &self.data,
    {
        &self.data
    }

    /// The number of slots.
    pub fn len(&self) -> (r: i64)
        ensures
            r == self.data.len,
    {
        self.data.len
    }

    /// The slot offset; always zero for arrays built here.
    pub fn offset(&self) -> (r: i64)
        ensures
            r == self.data.offset,
    {
        self.data.offset
    }

    /// The number of null slots.
    pub fn null_count(&self) -> (r: i64)
        ensures
            r == self.data.null_count,
    {
        self.data.null_count
    }

    /// Whether slot `i` is null.
    pub fn is_null(&self, i: i64) -> (r: bool)
        requires
            self.wf(),
            0 <= i < self.data.len,
        ensures
            r == self.data.spec_is_null(i as int),
    {
        self.data.is_null(i)
    }

    /// Whether slot `i` holds a valid (non-null) value.
    pub fn is_valid(&self, i: i64) -> (r: bool)
        requires
            self.wf(),
            0 <= i < self.data.len,
        ensures
            r == !self.data.spec_is_null(i as int),
    {
        !self.data.is_null(i)
    }

    /// The value in slot `i`. For a null slot the returned bytes are
    /// unspecified; readers must consult the validity bitmap first.
    pub fn value(&self, i: i64) -> (r: T)
        requires
            self.wf(),
            0 <= i < self.data.len,
        ensures
            r == self.spec_value(i as int),
    {
        let w: usize = T::byte_width();
        proof {
            T::lemma_width();
            let width = T::spec_byte_width();
            let n = self.data.len as int;
            assert((i + 1) * width <= n * width && n * width <= n * 8 && 0 <= i * width)
                by (nonlinear_arith)
                requires
                    0 <= i < n,
                    1 <= width <= 8,
            ;
        }
        let bytes: &[u8] = self.data.buffers[0].data();
        let start: usize = (i as usize) * w;
        let piece: &[u8] = slice_subrange(bytes, start, start + w);
        T::decode_le(piece)
    }

    /// The values buffer of the array.
    pub fn values(&self) -> (r: Buffer)
        requires
            self.wf(),
        ensures
            r@ == self.data.buffers@[0]@,
    {
        self.data.buffers[0].clone()
    }
}

/// A view over the data of a bit-packed boolean array.
#[derive(Debug)]
pub struct BooleanArray {
    pub data: ArrayData,
}

impl BooleanArray {
    /// Well-formed: the data is well-formed and tagged `Boolean`.
    pub open spec fn wf(&self) -> bool {
        &&& self.data.wf()
        &&& self.data.data_type is Boolean
    }

    /// The value in slot `i`: bit `i` of the values buffer.
    pub open spec fn spec_value(&self, i: int) -> bool {
        bit_util::nth_bit(self.data.buffers@[0]@, i)
    }

    /// Wraps well-formed array data in a boolean view.
    pub fn from_data(data: ArrayData) -> (r: BooleanArray)
        ensures
            r.data == data,
    {
        BooleanArray { data }
    }

    /// The underlying array data.
    pub fn data(&self) -> (r: &ArrayData)
        ensures
            r == &self.data,
    {
        &self.data
    }

    /// The number of slots.
    pub fn len(&self) -> (r: i64)
        ensures
            r == self.data.len,
    {
        self.data.len
    }

    /// The slot offset; always zero for arrays built here.
    pub fn offset(&self) -> (r: i64)
        ensures
            r == self.data.offset,
    {
        self.data.offset
    }

    /// The number of null slots.
    pub fn null_count(&self) -> (r: i64)
        ensures
            r == self.data.null_count,
    {
        self.data.null_count
    }

    /// Whether slot `i` is null.
    pub fn is_null(&self, i: i64) -> (r: bool)
        requires
            self.wf(),
            0 <= i < self.data.len,
        ensures
            r == self.data.spec_is_null(i as int),
    {
        self.data.is_null(i)
    }

    /// Whether slot `i` holds a valid (non-null) value.
    pub fn is_valid(&self, i: i64) -> (r: bool)
        requires
            self.wf(),
            0 <= i < self.data.len,
        ensures
            r == !self.data.spec_is_null(i as int),
    {
        !self.data.is_null(i)
    }

    /// The value in slot `i`: bit `i` of the bit-packed values buffer.
    pub fn value(&self, i: i64) -> (r: bool)
        requires
            self.wf(),
            0 <= i < self.data.len,
        ensures
            r == self.spec_value(i as int),
    {
        bit_util::get_bit(self.data.buffers[0].data(), i as usize)
    }

    /// The bit-packed values buffer of the array.
    pub fn values(&self) -> (r: Buffer)
        requires
            self.wf(),
        ensures
            r@ == self.data.buffers@[0]@,
    {
        self.data.buffers[0].clone()
    }
}

/// A view over the data of a variable-length list array: an `i32` offsets
/// buffer delimiting runs in a single child array.
#[derive(Debug)]
pub struct ListArray {
    pub data: ArrayData,
}

impl ListArray {
    /// Well-formed: the data is well-formed and tagged `List`.
    pub open spec fn wf(&self) -> bool {
        &&& self.data.wf()
        &&& self.data.data_type is List
    }

    /// The decoded offsets, `len + 1` of them.
    pub open spec fn spec_offsets(&self) -> Seq<i32> {
        spec_i32_seq(self.data.buffers@[0]@, self.data.len + 1)
    }

    /// Wraps well-formed array data in a list view.
    pub fn from_data(data: ArrayData) -> (r: ListArray)
        ensures
            r.data == data,
    {
        ListArray { data }
    }

    /// The underlying array data.
    pub fn data(&self) -> (r: &ArrayData)
        ensures
            r == &self.data,
    {
        &self.data
    }

    /// The number of list slots.
    pub fn len(&self) -> (r: i64)
        ensures
            r == self.data.len,
    {
        self.data.len
    }

    /// The slot offset; always zero for arrays built here.
    pub fn offset(&self) -> (r: i64)
        ensures
            r == self.data.offset,
    {
        self.data.offset
    }

    /// The number of null slots.
    pub fn null_count(&self) -> (r: i64)
        ensures
            r == self.data.null_count,
    {
        self.data.null_count
    }

    /// Whether slot `i` is null. A null slot's run is empty, but a
    /// zero-length run does not imply null: readers must consult this.
    pub fn is_null(&self, i: i64) -> (r: bool)
        requires
            self.wf(),
            0 <= i < self.data.len,
        ensures
            r == self.data.spec_is_null(i as int),
    {
        self.data.is_null(i)
    }

    /// Whether slot `i` holds a valid (non-null) list.
    pub fn is_valid(&self, i: i64) -> (r: bool)
        requires
            self.wf(),
            0 <= i < self.data.len,
        ensures
            r == !self.data.spec_is_null(i as int),
    {
        !self.data.is_null(i)
    }

    /// The child array holding the list elements.
    pub fn values(&self) -> (r: &ArrayData)
        requires
            self.wf(),
        ensures
            r == &self.data.child_data@[0],
    {
        &self.data.child_data[0]
    }

    /// The element type of the lists.
    pub fn value_type(&self) -> (r: DataType)
        requires
            self.wf(),
        ensures
            spec_dt_equal(r, self.data.child_data@[0].data_type),
    {
        self.data.child_data[0].data_type.clone()
    }

    /// The offsets of a well-formed list array delimit its runs: there is
    /// one offset per slot plus one, the first is zero, they never
    /// decrease, and every one lies within the child array's length.
    pub proof fn lemma_offsets_invariant(&self)
        requires
            self.wf(),
        ensures
            self.spec_offsets().len() == self.data.len + 1,
            self.spec_offsets()[0] == 0,
            forall|k: int|
                0 <= k < self.data.len ==> #[trigger] self.spec_offsets()[k]
                    <= self.spec_offsets()[k + 1],
            forall|k: int|
                0 <= k <= self.data.len ==> 0 <= #[trigger] self.spec_offsets()[k]
                    <= self.data.child_data@[0].len,
    {
    }

    /// The start of run `i` in the child array: `offsets[i]`.
    pub fn value_offset(&self, i: i64) -> (r: i32)
        requires
            self.wf(),
            0 <= i <= self.data.len,
        ensures
            r == self.spec_offsets()[i as int],
            0 <= r <= self.data.child_data@[0].len,
    {
        proof {
            assert((i + 1) * 4 <= (self.data.len + 1) * 4 && i * 4 >= 0) by (nonlinear_arith)
                requires
                    0 <= i <= self.data.len,
            ;
            assert(self.spec_offsets()[i as int] == spec_i32_at(
                self.data.buffers@[0]@,
                i as int,
            ));
        }
        let bytes: &[u8] = self.data.buffers[0].data();
        let start: usize = (i as usize) * 4;
        let piece: &[u8] = slice_subrange(bytes, start, start + 4);
        let raw: i32 = i32::decode_le(piece);
        proof {
            assert(self.data.buffers@[0]@.subrange(start as int, start + 4)
                == self.data.buffers@[0]@.subrange(4 * (i as int), 4 * (i as int) + 4));
        }
        raw
    }

    /// The length of run `i`: `offsets[i + 1] - offsets[i]`.
    pub fn value_length(&self, i: i64) -> (r: i32)
        requires
            self.wf(),
            0 <= i < self.data.len,
        ensures
            r == self.spec_offsets()[i + 1] - self.spec_offsets()[i as int],
            r >= 0,
    {
        let hi: i32 = self.value_offset(i + 1);
        let lo: i32 = self.value_offset(i);
        proof {
            assert(self.spec_offsets()[i as int] <= self.spec_offsets()[i + 1]);
        }
        hi - lo
    }
}

} // verus!

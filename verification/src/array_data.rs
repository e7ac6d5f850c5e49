//! `ArrayData`: the physical substrate underneath any typed array view —
//! a bundle of logical type, length, null count, null bitmap, data buffers
//! and child arrays, together with the per-type layout invariants.

use vstd::prelude::*;
use vstd::bytes;
use crate::bit_util;
use crate::buffer::Buffer;
use crate::datatypes::{spec_dt_equal, DataType};

verus! {

/// The fixed byte width of a non-boolean primitive type, or `None` for
/// types that are not fixed-width primitives.
pub open spec fn spec_fixed_width(dt: DataType) -> Option<int> {
    match dt {
        DataType::Int8 => Some(1),
        DataType::Int16 => Some(2),
        DataType::Int32 => Some(4),
        DataType::Int64 => Some(8),
        DataType::UInt8 => Some(1),
        DataType::UInt16 => Some(2),
        DataType::UInt32 => Some(4),
        DataType::UInt64 => Some(8),
        _ => None,
    }
}

/// The 32-bit signed little-endian integer at entry `i` of a byte buffer
/// holding packed `i32` values.
pub open spec fn spec_i32_at(data: Seq<u8>, i: int) -> i32 {
    bytes::spec_u32_from_le_bytes(data.subrange(4 * i, 4 * i + 4)) as i32
}

/// The first `n` packed 32-bit entries of a byte buffer.
pub open spec fn spec_i32_seq(data: Seq<u8>, n: int) -> Seq<i32> {
    Seq::new(n as nat, |i: int| spec_i32_at(data, i))
}

/// Well-formedness of a list array's offsets: the first offset is zero,
/// offsets never decrease, and every offset is within the child's length.
pub open spec fn spec_offsets_wf(offs: Seq<i32>, child_len: int) -> bool {
    &&& offs.len() >= 1
    &&& offs[0] == 0
    &&& forall|i: int| 0 <= i < offs.len() - 1 ==> #[trigger] offs[i] <= offs[i + 1]
    &&& forall|i: int| 0 <= i < offs.len() ==> 0 <= #[trigger] offs[i] <= child_len
}

/// The immutable physical data of an array: its logical type, length, null
/// count, optional null bitmap, data buffers and child arrays.
#[derive(Debug)]
pub struct ArrayData {
    pub data_type: DataType,
    pub len: i64,
    pub null_count: i64,
    pub offset: i64,
    pub null_bitmap: Option<Buffer>,
    pub buffers: Vec<Buffer>,
    pub child_data: Vec<ArrayData>,
}

impl ArrayData {
    /// The per-type layout invariant of the Arrow physical layout:
    /// - the null count matches the clear bits of the null bitmap over the
    ///   first `len` positions (and is zero when no bitmap is present);
    /// - fixed-width primitives carry one values buffer of `len * width`
    ///   bytes and no children;
    /// - booleans carry one bit-packed buffer covering `len` bits;
    /// - lists carry one `i32` offsets buffer with `len + 1` entries,
    ///   starting at zero and non-decreasing within the single child's
    ///   length, and that child is itself well-formed.
    pub open spec fn wf(&self) -> bool
        decreases *self,
    {
        &&& self.len >= 0
        &&& self.len * 8 <= usize::MAX
        &&& self.offset == 0
        &&& 0 <= self.null_count <= self.len
        &&& match self.null_bitmap {
            Some(b) => {
                &&& b@.len() * 8 >= self.len
                &&& self.null_count == self.len - bit_util::count_trues(
                    bit_util::bit_seq(b@, self.len as int),
                )
            },
            None => self.null_count == 0,
        }
        &&& match spec_fixed_width(self.data_type) {
            Some(w) => {
                &&& self.buffers@.len() == 1
                &&& self.buffers@[0]@.len() == self.len * w
                &&& self.child_data@.len() == 0
            },
            None => match self.data_type {
                DataType::Boolean => {
                    &&& self.buffers@.len() == 1
                    &&& self.buffers@[0]@.len() * 8 >= self.len
                    &&& self.child_data@.len() == 0
                },
                DataType::List(t) => {
                    &&& self.buffers@.len() == 1
                    &&& self.buffers@[0]@.len() == (self.len + 1) * 4
                    &&& self.child_data@.len() == 1
                    &&& self.child_data@[0].wf()
                    &&& spec_dt_equal(self.child_data@[0].data_type, *t)
                    &&& spec_offsets_wf(
                        spec_i32_seq(self.buffers@[0]@, self.len + 1),
                        self.child_data@[0].len as int,
                    )
                },
                _ => true,
            },
        }
    }

    /// The logical type of the array.
    pub fn data_type(&self) -> (r: &DataType)
        ensures
            *r == self.data_type,
    {
        &self.data_type
    }

    /// The number of slots.
    pub fn len(&self) -> (r: i64)
        ensures
            r == self.len,
    {
        self.len
    }

    /// The number of null slots.
    pub fn null_count(&self) -> (r: i64)
        ensures
            r == self.null_count,
    {
        self.null_count
    }

    /// The offset of the first slot; always zero for arrays built here.
    pub fn offset(&self) -> (r: i64)
        ensures
            r == self.offset,
    {
        self.offset
    }

    /// The data buffers of the array.
    pub fn buffers(&self) -> (r: &Vec<Buffer>)
        ensures
            r@ == self.buffers@,
    {
        &self.buffers
    }

    /// The child arrays of the array.
    pub fn child_data(&self) -> (r: &Vec<ArrayData>)
        ensures
            r@ == self.child_data@,
    {
        &self.child_data
    }

    /// The null bitmap, if any: bit `i` set means slot `i` is valid.
    pub fn null_bit_buffer(&self) -> (r: &Option<Buffer>)
        ensures
            *r == self.null_bitmap,
    {
        &self.null_bitmap
    }

    /// Whether slot `i` is null: a null bitmap is present and bit `i` of it
    /// is clear. Absence of a bitmap means every slot is valid.
    pub open spec fn spec_is_null(&self, i: int) -> bool {
        match self.null_bitmap {
            Some(b) => !bit_util::nth_bit(b@, i),
            None => false,
        }
    }

    /// Reads whether slot `i` is null.
    pub fn is_null(&self, i: i64) -> (r: bool)
        requires
            self.wf(),
            0 <= i < self.len,
        ensures
            r == self.spec_is_null(i as int),
    {
        match &self.null_bitmap {
            Some(b) => !bit_util::get_bit(b.data(), i as usize),
            None => false,
        }
    }
}

} // verus!

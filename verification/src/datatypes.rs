//! The logical type descriptors of the library: the `DataType` tagged
//! variant, the named nullable `Field`, the ordered `Schema`, and the
//! capability traits of the fixed-width native element types that the
//! builders store.

use vstd::prelude::*;
use vstd::bytes;
use vstd::string::StringExecFns;

verus! {

/// The possible logical types of an array. Equality is structural;
/// `spec_dt_equal` is the specification-level statement of it.
#[derive(Debug)]
pub enum DataType {
    Boolean,
    Int8,
    Int16,
    Int32,
    Int64,
    UInt8,
    UInt16,
    UInt32,
    UInt64,
    Float16,
    Float32,
    Float64,
    Utf8,
    List(Box<DataType>),
    Struct(Vec<Field>),
}

/// A named, possibly nullable field of a given logical type. Immutable
/// once constructed.
#[derive(Debug)]
pub struct Field {
    pub name: String,
    pub data_type: DataType,
    pub nullable: bool,
}

/// Structural equality of two logical types: equal tags, equal parameters;
/// strings compare by their character sequences.
pub open spec fn spec_dt_equal(a: DataType, b: DataType) -> bool
    decreases a,
{
    match (a, b) {
        (DataType::Boolean, DataType::Boolean) => true,
        (DataType::Int8, DataType::Int8) => true,
        (DataType::Int16, DataType::Int16) => true,
        (DataType::Int32, DataType::Int32) => true,
        (DataType::Int64, DataType::Int64) => true,
        (DataType::UInt8, DataType::UInt8) => true,
        (DataType::UInt16, DataType::UInt16) => true,
        (DataType::UInt32, DataType::UInt32) => true,
        (DataType::UInt64, DataType::UInt64) => true,
        (DataType::Float16, DataType::Float16) => true,
        (DataType::Float32, DataType::Float32) => true,
        (DataType::Float64, DataType::Float64) => true,
        (DataType::Utf8, DataType::Utf8) => true,
        (DataType::List(x), DataType::List(y)) => spec_dt_equal(*x, *y),
        (DataType::Struct(fs), DataType::Struct(gs)) => {
            &&& fs@.len() == gs@.len()
            &&& forall|i: int|
                0 <= i < fs@.len() ==> spec_field_equal(#[trigger] fs@[i], gs@[i])
        },
        _ => false,
    }
}

/// Structural equality of two fields: equal names, equal nullability and
/// structurally equal types.
pub open spec fn spec_field_equal(a: Field, b: Field) -> bool
    decreases a,
{
    a.name@ == b.name@ && a.nullable == b.nullable && spec_dt_equal(a.data_type, b.data_type)
}

/// Structural equality is reflexive.
pub proof fn lemma_dt_equal_refl(a: DataType)
    ensures
        spec_dt_equal(a, a),
    decreases a,
{
    match a {
        DataType::List(x) => {
            lemma_dt_equal_refl(*x);
        },
        DataType::Struct(fs) => {
            assert forall|i: int| 0 <= i < fs@.len() implies spec_field_equal(
                #[trigger] fs@[i],
                fs@[i],
            ) by {
                lemma_dt_equal_refl(fs@[i].data_type);
            }
        },
        _ => {},
    }
}

/// Structural equality is symmetric.
pub proof fn lemma_dt_equal_sym(a: DataType, b: DataType)
    ensures
        spec_dt_equal(a, b) == spec_dt_equal(b, a),
    decreases a,
{
    match (a, b) {
        (DataType::List(x), DataType::List(y)) => {
            lemma_dt_equal_sym(*x, *y);
        },
        (DataType::Struct(fs), DataType::Struct(gs)) => {
            if fs@.len() == gs@.len() {
                assert forall|i: int| 0 <= i < fs@.len() implies spec_field_equal(
                    #[trigger] fs@[i],
                    gs@[i],
                ) == spec_field_equal(gs@[i], fs@[i]) by {
                    lemma_dt_equal_sym(fs@[i].data_type, gs@[i].data_type);
                }
            }
        },
        _ => {},
    }
}

/// Structural equality is transitive.
pub proof fn lemma_dt_equal_trans(a: DataType, b: DataType, c: DataType)
    requires
        spec_dt_equal(a, b),
        spec_dt_equal(b, c),
    ensures
        spec_dt_equal(a, c),
    decreases a,
{
    match (a, b, c) {
        (DataType::List(x), DataType::List(y), DataType::List(z)) => {
            lemma_dt_equal_trans(*x, *y, *z);
        },
        (DataType::Struct(fs), DataType::Struct(gs), DataType::Struct(hs)) => {
            assert forall|i: int| 0 <= i < fs@.len() implies spec_field_equal(
                #[trigger] fs@[i],
                hs@[i],
            ) by {
                assert(spec_field_equal(fs@[i], gs@[i]));
                assert(spec_field_equal(gs@[i], hs@[i]));
                lemma_dt_equal_trans(fs@[i].data_type, gs@[i].data_type, hs@[i].data_type);
            }
        },
        _ => {},
    }
}

/// Compares two logical types structurally.
fn dt_eq(a: &DataType, b: &DataType) -> (r: bool)
    ensures
        r == spec_dt_equal(*a, *b),
    decreases *a,
{
    match (a, b) {
        (DataType::Boolean, DataType::Boolean) => true,
        (DataType::Int8, DataType::Int8) => true,
        (DataType::Int16, DataType::Int16) => true,
        (DataType::Int32, DataType::Int32) => true,
        (DataType::Int64, DataType::Int64) => true,
        (DataType::UInt8, DataType::UInt8) => true,
        (DataType::UInt16, DataType::UInt16) => true,
        (DataType::UInt32, DataType::UInt32) => true,
        (DataType::UInt64, DataType::UInt64) => true,
        (DataType::Float16, DataType::Float16) => true,
        (DataType::Float32, DataType::Float32) => true,
        (DataType::Float64, DataType::Float64) => true,
        (DataType::Utf8, DataType::Utf8) => true,
        (DataType::List(x), DataType::List(y)) => dt_eq(x, y),
        (DataType::Struct(fs), DataType::Struct(gs)) => {
            if fs.len() != gs.len() {
                return false;
            }
            let n: usize = fs.len();
            let mut i: usize = 0;
            while i < n
                invariant
                    0 <= i <= n,
                    n == fs@.len(),
                    n == gs@.len(),
                    a == DataType::Struct(*fs),
                    b == DataType::Struct(*gs),
                    forall|j: int| 0 <= j < i ==> spec_field_equal(#[trigger] fs@[j], gs@[j]),
                decreases n - i,
            {
                proof {
                    let ghost els = (*a)->Struct_0;
                    assert(els == *fs);
                    assert(decreases_to!(*a => els));
                    assert(decreases_to!(els => els@[i as int]));
                    assert(decreases_to!(*a => fs@[i as int]));
                }
                if !field_eq(&fs[i], &gs[i]) {
                    return false;
                }
                i = i + 1;
            }
            true
        },
        _ => false,
    }
}

/// Compares two fields structurally.
fn field_eq(a: &Field, b: &Field) -> (r: bool)
    ensures
        r == spec_field_equal(*a, *b),
    decreases *a,
{
    a.name == b.name && a.nullable == b.nullable && dt_eq(&a.data_type, &b.data_type)
}

impl PartialEq for DataType {
    fn eq(&self, other: &DataType) -> (r: bool) {
        dt_eq(self, other)
    }
}

impl vstd::std_specs::cmp::PartialEqSpecImpl for DataType {
    open spec fn obeys_eq_spec() -> bool {
        true
    }

    open spec fn eq_spec(&self, other: &DataType) -> bool {
        spec_dt_equal(*self, *other)
    }
}

impl PartialEq for Field {
    fn eq(&self, other: &Field) -> (r: bool) {
        field_eq(self, other)
    }
}

impl vstd::std_specs::cmp::PartialEqSpecImpl for Field {
    open spec fn obeys_eq_spec() -> bool {
        true
    }

    open spec fn eq_spec(&self, other: &Field) -> bool {
        spec_field_equal(*self, *other)
    }
}

impl Clone for DataType {
    /// The clone is structurally equal to the original.
    fn clone(&self) -> (r: DataType)
        ensures
            spec_dt_equal(r, *self),
    {
        dt_clone(self)
    }
}

impl Clone for Field {
    /// The clone is structurally equal to the original.
    fn clone(&self) -> (r: Field)
        ensures
            spec_field_equal(r, *self),
    {
        field_clone(self)
    }
}

fn dt_clone(a: &DataType) -> (r: DataType)
    ensures
        spec_dt_equal(r, *a),
    decreases *a,
{
    match a {
        DataType::Boolean => DataType::Boolean,
        DataType::Int8 => DataType::Int8,
        DataType::Int16 => DataType::Int16,
        DataType::Int32 => DataType::Int32,
        DataType::Int64 => DataType::Int64,
        DataType::UInt8 => DataType::UInt8,
        DataType::UInt16 => DataType::UInt16,
        DataType::UInt32 => DataType::UInt32,
        DataType::UInt64 => DataType::UInt64,
        DataType::Float16 => DataType::Float16,
        DataType::Float32 => DataType::Float32,
        DataType::Float64 => DataType::Float64,
        DataType::Utf8 => DataType::Utf8,
        DataType::List(x) => DataType::List(Box::new(dt_clone(x))),
        DataType::Struct(fs) => {
            let n: usize = fs.len();
            let mut out: Vec<Field> = Vec::new();
            let mut i: usize = 0;
            while i < n
                invariant
                    0 <= i <= n,
                    n == fs@.len(),
                    a == DataType::Struct(*fs),
                    out@.len() == i,
                    forall|j: int| 0 <= j < i ==> spec_field_equal(#[trigger] out@[j], fs@[j]),
                decreases n - i,
            {
                proof {
                    let ghost els = (*a)->Struct_0;
                    assert(els == *fs);
                    assert(decreases_to!(*a => els));
                    assert(decreases_to!(els => els@[i as int]));
                    assert(decreases_to!(*a => fs@[i as int]));
                }
                out.push(field_clone(&fs[i]));
                i = i + 1;
            }
            DataType::Struct(out)
        },
    }
}

fn field_clone(a: &Field) -> (r: Field)
    ensures
        spec_field_equal(r, *a),
    decreases *a,
{
    Field { name: a.name.clone(), data_type: dt_clone(&a.data_type), nullable: a.nullable }
}

/// A fixed-width native element type that the buffer builders can store:
/// it knows its byte width, its little-endian byte representation, and the
/// logical `DataType` it corresponds to.
pub trait ArrowNativeType: Copy + Sized {
    /// Number of bytes a value occupies.
    spec fn spec_byte_width() -> int;

    /// The little-endian byte representation of a value.
    spec fn spec_to_le(self) -> Seq<u8>;

    /// The value a little-endian byte sequence stands for.
    spec fn spec_from_le(bytes: Seq<u8>) -> Self;

    /// The logical type tag of this native type.
    spec fn spec_data_type() -> DataType;

    proof fn lemma_width()
        ensures
            1 <= Self::spec_byte_width() <= 8,
            crate::array_data::spec_fixed_width(Self::spec_data_type()) == Some(
                Self::spec_byte_width(),
            ),
    ;

    /// The representation is `spec_byte_width` bytes long and reading it
    /// back yields the value.
    proof fn lemma_le_round_trip(self)
        ensures
            self.spec_to_le().len() == Self::spec_byte_width(),
            Self::spec_from_le(self.spec_to_le()) == self,
    ;

    fn byte_width() -> (r: usize)
        ensures
            r as int == Self::spec_byte_width(),
    ;

    fn to_le_vec(self) -> (r: Vec<u8>)
        ensures
            r@ == self.spec_to_le(),
    ;

    fn decode_le(bytes: &[u8]) -> (r: Self)
        requires
            bytes@.len() == Self::spec_byte_width(),
        ensures
            r == Self::spec_from_le(bytes@),
    ;

    fn data_type() -> (r: DataType)
        ensures
            r == Self::spec_data_type(),
    ;
}

impl ArrowNativeType for u8 {
    open spec fn spec_byte_width() -> int {
        1
    }

    open spec fn spec_to_le(self) -> Seq<u8> {
        seq![self]
    }

    open spec fn spec_from_le(bytes: Seq<u8>) -> u8 {
        bytes[0]
    }

    open spec fn spec_data_type() -> DataType {
        DataType::UInt8
    }

    proof fn lemma_width() {
    }

    proof fn lemma_le_round_trip(self) {
    }

    fn byte_width() -> usize {
        1
    }

    fn to_le_vec(self) -> (r: Vec<u8>) {
        let mut v: Vec<u8> = Vec::new();
        v.push(self);
        proof {
            assert(v@ =~= seq![self]);
        }
        v
    }

    fn decode_le(bytes: &[u8]) -> u8 {
        bytes[0]
    }

    fn data_type() -> DataType {
        DataType::UInt8
    }
}

impl ArrowNativeType for u16 {
    open spec fn spec_byte_width() -> int {
        2
    }

    open spec fn spec_to_le(self) -> Seq<u8> {
        bytes::spec_u16_to_le_bytes(self)
    }

    open spec fn spec_from_le(bytes_in: Seq<u8>) -> u16 {
        bytes::spec_u16_from_le_bytes(bytes_in)
    }

    open spec fn spec_data_type() -> DataType {
        DataType::UInt16
    }

    proof fn lemma_width() {
    }

    proof fn lemma_le_round_trip(self) {
        bytes::lemma_auto_spec_u16_to_from_le_bytes();
        assert(bytes::spec_u16_to_le_bytes(self).len() == 2);
    }

    fn byte_width() -> usize {
        2
    }

    fn to_le_vec(self) -> (r: Vec<u8>) {
        bytes::u16_to_le_bytes(self)
    }

    fn decode_le(bytes_in: &[u8]) -> u16 {
        bytes::u16_from_le_bytes(bytes_in)
    }

    fn data_type() -> DataType {
        DataType::UInt16
    }
}

impl ArrowNativeType for u32 {
    open spec fn spec_byte_width() -> int {
        4
    }

    open spec fn spec_to_le(self) -> Seq<u8> {
        bytes::spec_u32_to_le_bytes(self)
    }

    open spec fn spec_from_le(bytes_in: Seq<u8>) -> u32 {
        bytes::spec_u32_from_le_bytes(bytes_in)
    }

    open spec fn spec_data_type() -> DataType {
        DataType::UInt32
    }

    proof fn lemma_width() {
    }

    proof fn lemma_le_round_trip(self) {
        bytes::lemma_auto_spec_u32_to_from_le_bytes();
        assert(bytes::spec_u32_to_le_bytes(self).len() == 4);
    }

    fn byte_width() -> usize {
        4
    }

    fn to_le_vec(self) -> (r: Vec<u8>) {
        bytes::u32_to_le_bytes(self)
    }

    fn decode_le(bytes_in: &[u8]) -> u32 {
        bytes::u32_from_le_bytes(bytes_in)
    }

    fn data_type() -> DataType {
        DataType::UInt32
    }
}

impl ArrowNativeType for u64 {
    open spec fn spec_byte_width() -> int {
        8
    }

    open spec fn spec_to_le(self) -> Seq<u8> {
        bytes::spec_u64_to_le_bytes(self)
    }

    open spec fn spec_from_le(bytes_in: Seq<u8>) -> u64 {
        bytes::spec_u64_from_le_bytes(bytes_in)
    }

    open spec fn spec_data_type() -> DataType {
        DataType::UInt64
    }

    proof fn lemma_width() {
    }

    proof fn lemma_le_round_trip(self) {
        bytes::lemma_auto_spec_u64_to_from_le_bytes();
        assert(bytes::spec_u64_to_le_bytes(self).len() == 8);
    }

    fn byte_width() -> usize {
        8
    }

    fn to_le_vec(self) -> (r: Vec<u8>) {
        bytes::u64_to_le_bytes(self)
    }

    fn decode_le(bytes_in: &[u8]) -> u64 {
        bytes::u64_from_le_bytes(bytes_in)
    }

    fn data_type() -> DataType {
        DataType::UInt64
    }
}

impl ArrowNativeType for i8 {
    open spec fn spec_byte_width() -> int {
        1
    }

    open spec fn spec_to_le(self) -> Seq<u8> {
        seq![self as u8]
    }

    open spec fn spec_from_le(bytes: Seq<u8>) -> i8 {
        bytes[0] as i8
    }

    open spec fn spec_data_type() -> DataType {
        DataType::Int8
    }

    proof fn lemma_width() {
    }

    proof fn lemma_le_round_trip(self) {
        assert(self as u8 as i8 == self) by (bit_vector);
    }

    fn byte_width() -> usize {
        1
    }

    fn to_le_vec(self) -> (r: Vec<u8>) {
        let mut v: Vec<u8> = Vec::new();
        v.push(self as u8);
        proof {
            assert(v@ =~= seq![self as u8]);
        }
        v
    }

    fn decode_le(bytes: &[u8]) -> i8 {
        bytes[0] as i8
    }

    fn data_type() -> DataType {
        DataType::Int8
    }
}

impl ArrowNativeType for i16 {
    open spec fn spec_byte_width() -> int {
        2
    }

    open spec fn spec_to_le(self) -> Seq<u8> {
        bytes::spec_u16_to_le_bytes(self as u16)
    }

    open spec fn spec_from_le(bytes_in: Seq<u8>) -> i16 {
        bytes::spec_u16_from_le_bytes(bytes_in) as i16
    }

    open spec fn spec_data_type() -> DataType {
        DataType::Int16
    }

    proof fn lemma_width() {
    }

    proof fn lemma_le_round_trip(self) {
        bytes::lemma_auto_spec_u16_to_from_le_bytes();
        assert(bytes::spec_u16_to_le_bytes(self as u16).len() == 2);
        assert(self as u16 as i16 == self) by (bit_vector);
    }

    fn byte_width() -> usize {
        2
    }

    fn to_le_vec(self) -> (r: Vec<u8>) {
        bytes::u16_to_le_bytes(self as u16)
    }

    fn decode_le(bytes_in: &[u8]) -> i16 {
        bytes::u16_from_le_bytes(bytes_in) as i16
    }

    fn data_type() -> DataType {
        DataType::Int16
    }
}

impl ArrowNativeType for i32 {
    open spec fn spec_byte_width() -> int {
        4
    }

    open spec fn spec_to_le(self) -> Seq<u8> {
        bytes::spec_u32_to_le_bytes(self as u32)
    }

    open spec fn spec_from_le(bytes_in: Seq<u8>) -> i32 {
        bytes::spec_u32_from_le_bytes(bytes_in) as i32
    }

    open spec fn spec_data_type() -> DataType {
        DataType::Int32
    }

    proof fn lemma_width() {
    }

    proof fn lemma_le_round_trip(self) {
        bytes::lemma_auto_spec_u32_to_from_le_bytes();
        assert(bytes::spec_u32_to_le_bytes(self as u32).len() == 4);
        assert(self as u32 as i32 == self) by (bit_vector);
    }

    fn byte_width() -> usize {
        4
    }

    fn to_le_vec(self) -> (r: Vec<u8>) {
        bytes::u32_to_le_bytes(self as u32)
    }

    fn decode_le(bytes_in: &[u8]) -> i32 {
        bytes::u32_from_le_bytes(bytes_in) as i32
    }

    fn data_type() -> DataType {
        DataType::Int32
    }
}

impl ArrowNativeType for i64 {
    open spec fn spec_byte_width() -> int {
        8
    }

    open spec fn spec_to_le(self) -> Seq<u8> {
        bytes::spec_u64_to_le_bytes(self as u64)
    }

    open spec fn spec_from_le(bytes_in: Seq<u8>) -> i64 {
        bytes::spec_u64_from_le_bytes(bytes_in) as i64
    }

    open spec fn spec_data_type() -> DataType {
        DataType::Int64
    }

    proof fn lemma_width() {
    }

    proof fn lemma_le_round_trip(self) {
        bytes::lemma_auto_spec_u64_to_from_le_bytes();
        assert(bytes::spec_u64_to_le_bytes(self as u64).len() == 8);
        assert(self as u64 as i64 == self) by (bit_vector);
    }

    fn byte_width() -> usize {
        8
    }

    fn to_le_vec(self) -> (r: Vec<u8>) {
        bytes::u64_to_le_bytes(self as u64)
    }

    fn decode_le(bytes_in: &[u8]) -> i64 {
        bytes::u64_from_le_bytes(bytes_in) as i64
    }

    fn data_type() -> DataType {
        DataType::Int64
    }
}

/// A fixed-width primitive type: its logical tag and its bit width.
pub trait ArrowPrimitiveType: ArrowNativeType {
    fn get_data_type() -> (r: DataType)
        ensures
            r == Self::spec_data_type(),
    ;

    fn get_bit_width() -> (r: usize)
        ensures
            r as int == 8 * Self::spec_byte_width(),
    ;
}

/// A primitive type representing numeric values.
pub trait ArrowNumericType: ArrowPrimitiveType {

}

impl ArrowPrimitiveType for u8 {
    fn get_data_type() -> DataType {
        <u8 as ArrowNativeType>::data_type()
    }

    fn get_bit_width() -> (r: usize) {
        8 * <u8 as ArrowNativeType>::byte_width()
    }
}

impl ArrowNumericType for u8 {

}

impl ArrowPrimitiveType for u16 {
    fn get_data_type() -> DataType {
        <u16 as ArrowNativeType>::data_type()
    }

    fn get_bit_width() -> (r: usize) {
        8 * <u16 as ArrowNativeType>::byte_width()
    }
}

impl ArrowNumericType for u16 {

}

impl ArrowPrimitiveType for u32 {
    fn get_data_type() -> DataType {
        <u32 as ArrowNativeType>::data_type()
    }

    fn get_bit_width() -> (r: usize) {
        8 * <u32 as ArrowNativeType>::byte_width()
    }
}

impl ArrowNumericType for u32 {

}

impl ArrowPrimitiveType for u64 {
    fn get_data_type() -> DataType {
        <u64 as ArrowNativeType>::data_type()
    }

    fn get_bit_width() -> (r: usize) {
        8 * <u64 as ArrowNativeType>::byte_width()
    }
}

impl ArrowNumericType for u64 {

}

impl ArrowPrimitiveType for i8 {
    fn get_data_type() -> DataType {
        <i8 as ArrowNativeType>::data_type()
    }

    fn get_bit_width() -> (r: usize) {
        8 * <i8 as ArrowNativeType>::byte_width()
    }
}

impl ArrowNumericType for i8 {

}

impl ArrowPrimitiveType for i16 {
    fn get_data_type() -> DataType {
        <i16 as ArrowNativeType>::data_type()
    }

    fn get_bit_width() -> (r: usize) {
        8 * <i16 as ArrowNativeType>::byte_width()
    }
}

impl ArrowNumericType for i16 {

}

impl ArrowPrimitiveType for i32 {
    fn get_data_type() -> DataType {
        <i32 as ArrowNativeType>::data_type()
    }

    fn get_bit_width() -> (r: usize) {
        8 * <i32 as ArrowNativeType>::byte_width()
    }
}

impl ArrowNumericType for i32 {

}

impl ArrowPrimitiveType for i64 {
    fn get_data_type() -> DataType {
        <i64 as ArrowNativeType>::data_type()
    }

    fn get_bit_width() -> (r: usize) {
        8 * <i64 as ArrowNativeType>::byte_width()
    }
}

impl ArrowNumericType for i64 {

}


/// The concatenated little-endian bytes of a sequence of native values.
pub open spec fn spec_le_concat<T: ArrowNativeType>(s: Seq<T>) -> Seq<u8>
    decreases s.len(),
{
    if s.len() == 0 {
        Seq::<u8>::empty()
    } else {
        spec_le_concat(s.drop_last()) + s.last().spec_to_le()
    }
}

/// The concatenation is as long as the element count times the width.
pub proof fn lemma_le_concat_len<T: ArrowNativeType>(s: Seq<T>)
    ensures
        spec_le_concat(s).len() == s.len() * T::spec_byte_width(),
    decreases s.len(),
{
    if s.len() == 0 {
    } else {
        lemma_le_concat_len::<T>(s.drop_last());
        s.last().lemma_le_round_trip();
        assert((s.len() - 1) * T::spec_byte_width() + T::spec_byte_width() == s.len()
            * T::spec_byte_width()) by (nonlinear_arith);
    }
}

/// Conversion of native values to their raw little-endian bytes.
pub trait ToByteSlice {
    /// The bytes the value converts to.
    spec fn spec_byte_repr(&self) -> Seq<u8>;

    /// Converts this instance into its little-endian bytes.
    fn to_byte_slice(&self) -> (r: Vec<u8>)
        ensures
            r@ == self.spec_byte_repr(),
    ;
}

impl<T: ArrowNativeType> ToByteSlice for [T] {
    open spec fn spec_byte_repr(&self) -> Seq<u8> {
        spec_le_concat(self@)
    }

    fn to_byte_slice(&self) -> (r: Vec<u8>) {
        let n: usize = self.len();
        let mut out: Vec<u8> = Vec::new();
        let mut i: usize = 0;
        proof {
            assert(self@.take(0) =~= Seq::<T>::empty());
        }
        while i < n
            invariant
                0 <= i <= n,
                n == self@.len(),
                out@ == spec_le_concat(self@.take(i as int)),
            decreases n - i,
        {
            let mut piece: Vec<u8> = self[i].to_le_vec();
            out.append(&mut piece);
            proof {
                assert(self@.take(i + 1).drop_last() =~= self@.take(i as int));
                assert(self@.take(i + 1).last() == self@[i as int]);
            }
            i = i + 1;
        }
        proof {
            assert(self@.take(n as int) =~= self@);
        }
        out
    }
}

impl<T: ArrowNativeType> ToByteSlice for T {
    open spec fn spec_byte_repr(&self) -> Seq<u8> {
        self.spec_to_le()
    }

    fn to_byte_slice(&self) -> (r: Vec<u8>) {
        self.to_le_vec()
    }
}

impl Field {
    /// The field's name, as a character sequence.
    pub open spec fn spec_name(&self) -> Seq<char> {
        self.name@
    }

    /// The field's logical type.
    pub open spec fn spec_data_type(&self) -> DataType {
        self.data_type
    }

    /// Whether the field admits null values.
    pub open spec fn spec_nullable(&self) -> bool {
        self.nullable
    }

    /// Creates a new field.
    pub fn new(name: &str, data_type: DataType, nullable: bool) -> (r: Field)
        ensures
            r.spec_name() == name@,
            r.spec_data_type() == data_type,
            r.spec_nullable() == nullable,
    {
        Field { name: name.to_owned(), data_type, nullable }
    }

    /// The field's name.
    pub fn name(&self) -> (r: &String)
        ensures
            r@ == self.spec_name(),
    {
        &self.name
    }

    /// The field's logical type.
    pub fn data_type(&self) -> (r: &DataType)
        ensures
            *r == self.spec_data_type(),
    {
        &self.data_type
    }

    /// Whether the field admits null values.
    pub fn is_nullable(&self) -> (r: bool)
        ensures
            r == self.spec_nullable(),
    {
        self.nullable
    }

    /// The textual form of the field: its name, a colon, and its type.
    pub fn to_string(&self) -> (r: String)
        ensures
            r@ == self.name@ + ": "@ + spec_dt_debug(self.data_type),
    {
        let mut out: String = String::new();
        out.append(self.name.as_str());
        out.append(": ");
        push_dt_debug(&mut out, &self.data_type);
        out
    }
}


/// The textual form of a logical type, as `Field::to_string` and
/// `Schema::to_string` render it: the variant's name, a list's element
/// type in parentheses, and a struct's fields in brackets.
pub open spec fn spec_dt_debug(dt: DataType) -> Seq<char>
    decreases dt,
{
    match dt {
        DataType::Boolean => "Boolean"@,
        DataType::Int8 => "Int8"@,
        DataType::Int16 => "Int16"@,
        DataType::Int32 => "Int32"@,
        DataType::Int64 => "Int64"@,
        DataType::UInt8 => "UInt8"@,
        DataType::UInt16 => "UInt16"@,
        DataType::UInt32 => "UInt32"@,
        DataType::UInt64 => "UInt64"@,
        DataType::Float16 => "Float16"@,
        DataType::Float32 => "Float32"@,
        DataType::Float64 => "Float64"@,
        DataType::Utf8 => "Utf8"@,
        DataType::List(t) => "List("@ + spec_dt_debug(*t) + ")"@,
        DataType::Struct(fields) => "Struct(["@ + spec_fields_debug(fields@, fields@.len() as int)
            + "])"@,
    }
}

/// The textual form of the first `k` fields, joined with `", "`.
pub open spec fn spec_fields_debug(fields: Seq<Field>, k: int) -> Seq<char>
    decreases fields, k,
{
    if k <= 0 || fields.len() < k {
        Seq::<char>::empty()
    } else if k == 1 {
        spec_field_debug(fields[0])
    } else {
        spec_fields_debug(fields, k - 1) + ", "@ + spec_field_debug(fields[k - 1])
    }
}

/// The textual form of one field, mirroring its derived debug format.
pub open spec fn spec_field_debug(f: Field) -> Seq<char>
    decreases f,
{
    "Field { name: \""@ + f.name@ + "\", data_type: "@ + spec_dt_debug(f.data_type)
        + ", nullable: "@ + (if f.nullable {
        "true"@
    } else {
        "false"@
    }) + " }"@
}

/// Appends the textual form of `dt` to `out`.
fn push_dt_debug(out: &mut String, dt: &DataType)
    ensures
        final(out)@ == old(out)@ + spec_dt_debug(*dt),
    decreases *dt,
{
    match dt {
        DataType::Boolean => out.append("Boolean"),
        DataType::Int8 => out.append("Int8"),
        DataType::Int16 => out.append("Int16"),
        DataType::Int32 => out.append("Int32"),
        DataType::Int64 => out.append("Int64"),
        DataType::UInt8 => out.append("UInt8"),
        DataType::UInt16 => out.append("UInt16"),
        DataType::UInt32 => out.append("UInt32"),
        DataType::UInt64 => out.append("UInt64"),
        DataType::Float16 => out.append("Float16"),
        DataType::Float32 => out.append("Float32"),
        DataType::Float64 => out.append("Float64"),
        DataType::Utf8 => out.append("Utf8"),
        DataType::List(t) => {
            out.append("List(");
            push_dt_debug(out, t);
            out.append(")");
        },
        DataType::Struct(fields) => {
            out.append("Struct([");
            let n: usize = fields.len();
            let mut i: usize = 0;
            while i < n
                invariant
                    0 <= i <= n,
                    n == fields@.len(),
                    dt == DataType::Struct(*fields),
                    out@ == old(out)@ + "Struct(["@ + spec_fields_debug(fields@, i as int),
                decreases n - i,
            {
                proof {
                    let ghost els = (*dt)->Struct_0;
                    assert(els == *fields);
                    assert(decreases_to!(*dt => els));
                    assert(decreases_to!(els => els@[i as int]));
                    assert(decreases_to!(*dt => fields@[i as int]));
                }
                if i > 0 {
                    out.append(", ");
                }
                push_field_debug(out, &fields[i]);
                i = i + 1;
            }
            out.append("])");
        },
    }
}

/// Appends the textual form of `f` to `out`.
fn push_field_debug(out: &mut String, f: &Field)
    ensures
        final(out)@ == old(out)@ + spec_field_debug(*f),
    decreases *f,
{
    out.append("Field { name: \"");
    out.append(f.name.as_str());
    out.append("\", data_type: ");
    push_dt_debug(out, &f.data_type);
    out.append(", nullable: ");
    if f.nullable {
        out.append("true");
    } else {
        out.append("false");
    }
    out.append(" }");
}

/// An ordered collection of fields describing the columns of a record.
#[derive(Debug, Clone)]
pub struct Schema {
    fields: Vec<Field>,
}

impl Schema {
    /// Creates an empty schema.
    pub fn empty() -> (r: Schema)
        ensures
            r.spec_fields().len() == 0,
    {
        Schema { fields: Vec::new() }
    }

    /// Creates a schema from a sequence of fields.
    pub fn new(fields: Vec<Field>) -> (r: Schema)
        ensures
            r.spec_fields() == fields@,
    {
        Schema { fields }
    }

    /// The fields of the schema, in order.
    pub closed spec fn spec_fields(&self) -> Seq<Field> {
        self.fields@
    }

    /// The ordered fields.
    pub fn fields(&self) -> (r: &Vec<Field>)
        ensures
            r@ == self.spec_fields(),
    {
        &self.fields
    }

    /// The field at position `i`.
    pub fn field(&self, i: usize) -> (r: &Field)
        requires
            i < self.spec_fields().len(),
        ensures
            *r == self.spec_fields()[i as int],
    {
        &self.fields[i]
    }

    /// The textual form of the first `k` fields' descriptions, joined
    /// with `", "`.
    pub open spec fn spec_display_prefix(fields: Seq<Field>, k: int) -> Seq<char>
        decreases k,
    {
        if k <= 0 {
            Seq::<char>::empty()
        } else if k == 1 {
            fields[0].name@ + ": "@ + spec_dt_debug(fields[0].data_type)
        } else {
            Schema::spec_display_prefix(fields, k - 1) + ", "@ + fields[k - 1].name@ + ": "@
                + spec_dt_debug(fields[k - 1].data_type)
        }
    }

    /// The textual form of the schema: every field's description, joined
    /// with `", "`.
    pub fn to_string(&self) -> (r: String)
        ensures
            r@ == Schema::spec_display_prefix(
                self.spec_fields(),
                self.spec_fields().len() as int,
            ),
    {
        let mut out: String = String::new();
        let n: usize = self.fields.len();
        let mut i: usize = 0;
        while i < n
            invariant
                0 <= i <= n,
                n == self.spec_fields().len(),
                out@ == Schema::spec_display_prefix(self.spec_fields(), i as int),
            decreases n - i,
        {
            if i > 0 {
                out.append(", ");
            }
            let piece: String = self.fields[i].to_string();
            out.append(piece.as_str());
            i = i + 1;
        }
        out
    }

    /// Looks a column up by name; returns the first field with that name
    /// together with its index, or `None` when no field has the name.
    pub fn column_with_name(&self, name: &str) -> (r: Option<(usize, &Field)>)
        ensures
            match r {
                Some((i, f)) => {
                    &&& i < self.spec_fields().len()
                    &&& *f == self.spec_fields()[i as int]
                    &&& f.spec_name() == name@
                    &&& forall|j: int| 0 <= j < i ==> (#[trigger] self.spec_fields()[j]).spec_name() != name@
                },
                None => forall|j: int|
                    0 <= j < self.spec_fields().len() ==> (#[trigger] self.spec_fields()[j]).spec_name()
                        != name@,
            },
    {
        let n: usize = self.fields.len();
        let mut i: usize = 0;
        while i < n
            invariant
                0 <= i <= n,
                n == self.spec_fields().len(),
                forall|j: int| 0 <= j < i ==> (#[trigger] self.spec_fields()[j]).spec_name() != name@,
            decreases n - i,
        {
            if str_eq(self.fields[i].name.as_str(), name) {
                return Some((i, &self.fields[i]));
            }
            i = i + 1;
        }
        None
    }
}

/// Compares two string slices by their character sequences.
pub fn str_eq(a: &str, b: &str) -> (r: bool)
    ensures
        r == (a@ == b@),
{
    let sa: String = a.to_owned();
    let sb: String = b.to_owned();
    sa == sb
}

} // verus!

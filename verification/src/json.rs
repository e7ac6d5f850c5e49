//! JSON metadata for `DataType` and `Field`, mirroring the Arrow metadata
//! JSON specification: `bool` and `utf8` carry only a name, integers carry
//! a bit width and signedness, floating points a precision, lists their
//! child type and structs their field list.
//!
//! The library's own `JsonValue` tree is the verified model: rendering and
//! parsing are verified functions between it and the metadata types, and
//! the canonical round-trip (`parse` after `render` is the identity) is
//! proved over it. serde_json is used only at the edge, to convert between
//! its opaque `Value` tree and the model.

use vstd::prelude::*;
use vstd::string::StringExecFns;
use crate::datatypes::{spec_dt_equal, spec_field_equal, str_eq, DataType, Field};
use crate::error::ArrowError;

verus! {

/// serde_json's opaque JSON tree, declared so that it can stand in
/// signatures; its values carry no specification of their own.
#[verifier::external_type_specification]
#[verifier::external_body]
pub struct ExValue(serde_json::Value);

/// A JSON value, as this library models it: numbers are unsigned 64-bit
/// integers (all the metadata needs), and objects keep their pairs in
/// insertion order.
#[derive(Debug)]
pub enum JsonValue {
    Null,
    Bool(bool),
    Number(u64),
    Str(String),
    Array(Vec<JsonValue>),
    Object(Vec<(String, JsonValue)>),
}

/// Relies on serde_json's `Value` constructors: builds the serde_json tree
/// equivalent to the model tree, variant by variant.
#[verifier::external_body]
fn to_serde_value(v: &JsonValue) -> serde_json::Value {
    match v {
        JsonValue::Null => serde_json::Value::Null,
        JsonValue::Bool(b) => serde_json::Value::Bool(*b),
        JsonValue::Number(n) => serde_json::Value::Number(serde_json::Number::from(*n)),
        JsonValue::Str(s) => serde_json::Value::String(s.clone()),
        JsonValue::Array(items) => serde_json::Value::Array(
            items.iter().map(to_serde_value).collect(),
        ),
        JsonValue::Object(pairs) => serde_json::Value::Object(
            pairs.iter().map(|p| (p.0.clone(), to_serde_value(&p.1))).collect(),
        ),
    }
}

/// Relies on serde_json's `Value` variant accessors: converts the tree to
/// the library's model, one variant to one variant. A number that is not
/// an unsigned 64-bit integer becomes `Null` (the metadata parser rejects
/// it either way).
#[verifier::external_body]
fn from_serde_value(v: &serde_json::Value) -> JsonValue {
    match v {
        serde_json::Value::Null => JsonValue::Null,
        serde_json::Value::Bool(b) => JsonValue::Bool(*b),
        serde_json::Value::Number(n) => match n.as_u64() {
            Some(u) => JsonValue::Number(u),
            None => JsonValue::Null,
        },
        serde_json::Value::String(s) => JsonValue::Str(s.clone()),
        serde_json::Value::Array(items) => JsonValue::Array(
            items.iter().map(from_serde_value).collect(),
        ),
        serde_json::Value::Object(map) => JsonValue::Object(
            map.iter().map(|p| (p.0.clone(), from_serde_value(p.1))).collect(),
        ),
    }
}

/// The value under the first pair whose key equals `key`, if any.
pub open spec fn spec_obj_get(pairs: Seq<(String, JsonValue)>, key: Seq<char>) -> Option<
    JsonValue,
>
    decreases pairs.len(),
{
    if pairs.len() == 0 {
        None
    } else if pairs[0].0@ == key {
        Some(pairs[0].1)
    } else {
        spec_obj_get(pairs.drop_first(), key)
    }
}

/// A successful lookup returns the value of a pair of the object.
pub proof fn lemma_obj_get_element(pairs: Seq<(String, JsonValue)>, key: Seq<char>)
    ensures
        match spec_obj_get(pairs, key) {
            Some(v) => exists|i: int|
                0 <= i < pairs.len() && #[trigger] pairs[i].1 == v && pairs[i].0@ == key,
            None => true,
        },
    decreases pairs.len(),
{
    if pairs.len() > 0 && pairs[0].0@ != key {
        lemma_obj_get_element(pairs.drop_first(), key);
        if spec_obj_get(pairs, key) is Some {
            let v = spec_obj_get(pairs, key)->Some_0;
            let i = choose|i: int|
                0 <= i < pairs.drop_first().len() && #[trigger] pairs.drop_first()[i].1 == v
                    && pairs.drop_first()[i].0@ == key;
            assert(pairs[i + 1].1 == v && pairs[i + 1].0@ == key);
        }
    }
}

/// When `i` is the first pair whose key matches, the lookup returns its
/// value.
pub proof fn lemma_obj_get_at(pairs: Seq<(String, JsonValue)>, key: Seq<char>, i: int)
    requires
        0 <= i < pairs.len(),
        pairs[i].0@ == key,
        forall|m: int| 0 <= m < i ==> (#[trigger] pairs[m]).0@ != key,
    ensures
        spec_obj_get(pairs, key) == Some(pairs[i].1),
    decreases i,
{
    if i > 0 {
        lemma_obj_get_at(pairs.drop_first(), key, i - 1);
        assert(pairs.drop_first()[i - 1] == pairs[i]);
        assert forall|m: int| 0 <= m < i - 1 implies (#[trigger] pairs.drop_first()[m]).0@
            != key by {
            assert(pairs.drop_first()[m] == pairs[m + 1]);
        }
    }
}

/// When no pair's key matches, the lookup returns nothing.
pub proof fn lemma_obj_get_none(pairs: Seq<(String, JsonValue)>, key: Seq<char>)
    requires
        forall|m: int| 0 <= m < pairs.len() ==> (#[trigger] pairs[m]).0@ != key,
    ensures
        spec_obj_get(pairs, key) is None,
    decreases pairs.len(),
{
    if pairs.len() > 0 {
        assert forall|m: int| 0 <= m < pairs.drop_first().len() implies (#[trigger] pairs.drop_first()[m]).0@
            != key by {
            assert(pairs.drop_first()[m] == pairs[m + 1]);
        }
        lemma_obj_get_none(pairs.drop_first(), key);
    }
}

/// Whether `j` is the JSON string `s`.
pub open spec fn spec_is_str(j: JsonValue, s: Seq<char>) -> bool {
    match j {
        JsonValue::Str(t) => t@ == s,
        _ => false,
    }
}

/// Whether `j` is an object of exactly one pair, `{"name": name}`.
pub open spec fn spec_name_only_json(j: JsonValue, name: Seq<char>) -> bool {
    match j {
        JsonValue::Object(pairs) => {
            &&& pairs@.len() == 1
            &&& pairs@[0].0@ == "name"@
            &&& spec_is_str(pairs@[0].1, name)
        },
        _ => false,
    }
}

/// Whether `j` is `{"name": "int", "bitWidth": width, "isSigned": signed}`.
pub open spec fn spec_int_json(j: JsonValue, width: u64, signed: bool) -> bool {
    match j {
        JsonValue::Object(pairs) => {
            &&& pairs@.len() == 3
            &&& pairs@[0].0@ == "name"@
            &&& spec_is_str(pairs@[0].1, "int"@)
            &&& pairs@[1].0@ == "bitWidth"@
            &&& pairs@[1].1 == JsonValue::Number(width)
            &&& pairs@[2].0@ == "isSigned"@
            &&& pairs@[2].1 == JsonValue::Bool(signed)
        },
        _ => false,
    }
}

/// Whether `j` is `{"name": "floatingpoint", "precision": precision}`.
pub open spec fn spec_float_json(j: JsonValue, precision: Seq<char>) -> bool {
    match j {
        JsonValue::Object(pairs) => {
            &&& pairs@.len() == 2
            &&& pairs@[0].0@ == "name"@
            &&& spec_is_str(pairs@[0].1, "floatingpoint"@)
            &&& pairs@[1].0@ == "precision"@
            &&& spec_is_str(pairs@[1].1, precision)
        },
        _ => false,
    }
}

/// Whether `j` is the canonical JSON rendering of the logical type `dt`.
pub open spec fn spec_type_json(dt: DataType, j: JsonValue) -> bool
    decreases dt,
{
    match dt {
        DataType::Boolean => spec_name_only_json(j, "bool"@),
        DataType::Utf8 => spec_name_only_json(j, "utf8"@),
        DataType::Int8 => spec_int_json(j, 8, true),
        DataType::Int16 => spec_int_json(j, 16, true),
        DataType::Int32 => spec_int_json(j, 32, true),
        DataType::Int64 => spec_int_json(j, 64, true),
        DataType::UInt8 => spec_int_json(j, 8, false),
        DataType::UInt16 => spec_int_json(j, 16, false),
        DataType::UInt32 => spec_int_json(j, 32, false),
        DataType::UInt64 => spec_int_json(j, 64, false),
        DataType::Float16 => spec_float_json(j, "HALF"@),
        DataType::Float32 => spec_float_json(j, "SINGLE"@),
        DataType::Float64 => spec_float_json(j, "DOUBLE"@),
        DataType::List(t) => match j {
            JsonValue::Object(pairs) => {
                &&& pairs@.len() == 2
                &&& pairs@[0].0@ == "name"@
                &&& spec_is_str(pairs@[0].1, "list"@)
                &&& pairs@[1].0@ == "children"@
                &&& spec_type_json(*t, pairs@[1].1)
            },
            _ => false,
        },
        DataType::Struct(fields) => match j {
            JsonValue::Object(pairs) => {
                &&& pairs@.len() == 1
                &&& pairs@[0].0@ == "fields"@
                &&& match pairs@[0].1 {
                    JsonValue::Array(elems) => {
                        &&& elems@.len() == fields@.len()
                        &&& forall|i: int|
                            0 <= i < fields@.len() ==> spec_field_json(
                                #[trigger] fields@[i],
                                elems@[i],
                            )
                    },
                    _ => false,
                }
            },
            _ => false,
        },
    }
}

/// Whether `j` is the canonical JSON rendering of the field `f`:
/// `{"name": ..., "nullable": ..., "type": ...}`.
pub open spec fn spec_field_json(f: Field, j: JsonValue) -> bool
    decreases f,
{
    match j {
        JsonValue::Object(pairs) => {
            &&& pairs@.len() == 3
            &&& pairs@[0].0@ == "name"@
            &&& spec_is_str(pairs@[0].1, f.name@)
            &&& pairs@[1].0@ == "nullable"@
            &&& pairs@[1].1 == JsonValue::Bool(f.nullable)
            &&& pairs@[2].0@ == "type"@
            &&& spec_type_json(f.data_type, pairs@[2].1)
        },
        _ => false,
    }
}

/// Whether parsing `j` as a logical type yields `dt`: the object's "name"
/// selects the variant; integers read their "bitWidth" and "isSigned",
/// floating points their "precision", lists their "children", and an
/// object without a name but with "fields" parses as a struct.
pub open spec fn spec_type_parses(j: JsonValue, dt: DataType) -> bool
    decreases dt,
{
    match j {
        JsonValue::Object(pairs) => match spec_obj_get(pairs@, "name"@) {
            Some(JsonValue::Str(s)) => {
                if s@ == "bool"@ {
                    dt is Boolean
                } else if s@ == "utf8"@ {
                    dt is Utf8
                } else if s@ == "floatingpoint"@ {
                    match spec_obj_get(pairs@, "precision"@) {
                        Some(JsonValue::Str(p)) => {
                            if p@ == "HALF"@ {
                                dt is Float16
                            } else if p@ == "SINGLE"@ {
                                dt is Float32
                            } else if p@ == "DOUBLE"@ {
                                dt is Float64
                            } else {
                                false
                            }
                        },
                        _ => false,
                    }
                } else if s@ == "int"@ {
                    match spec_obj_get(pairs@, "isSigned"@) {
                        Some(JsonValue::Bool(signed)) => match spec_obj_get(
                            pairs@,
                            "bitWidth"@,
                        ) {
                            Some(JsonValue::Number(w)) => {
                                if signed {
                                    if w == 8 {
                                        dt is Int8
                                    } else if w == 16 {
                                        dt is Int16
                                    } else if w == 32 {
                                        dt is Int32
                                    } else if w == 64 {
                                        dt is Int64
                                    } else {
                                        false
                                    }
                                } else {
                                    if w == 8 {
                                        dt is UInt8
                                    } else if w == 16 {
                                        dt is UInt16
                                    } else if w == 32 {
                                        dt is UInt32
                                    } else if w == 64 {
                                        dt is UInt64
                                    } else {
                                        false
                                    }
                                }
                            },
                            _ => false,
                        },
                        _ => false,
                    }
                } else if s@ == "list"@ {
                    match spec_obj_get(pairs@, "children"@) {
                        Some(child) => match dt {
                            DataType::List(t) => spec_type_parses(child, *t),
                            _ => false,
                        },
                        None => false,
                    }
                } else {
                    false
                }
            },
            Some(_) => false,
            None => match spec_obj_get(pairs@, "fields"@) {
                Some(JsonValue::Array(elems)) => match dt {
                    DataType::Struct(fs) => {
                        &&& fs@.len() == elems@.len()
                        &&& forall|i: int|
                            0 <= i < fs@.len() ==> spec_field_parses(
                                elems@[i],
                                #[trigger] fs@[i],
                            )
                    },
                    _ => false,
                },
                _ => false,
            },
        },
        _ => false,
    }
}

/// Whether parsing `j` as a field yields `f`: the object must carry a
/// string "name", a boolean "nullable" and a parseable "type".
pub open spec fn spec_field_parses(j: JsonValue, f: Field) -> bool
    decreases f,
{
    match j {
        JsonValue::Object(pairs) => {
            &&& match spec_obj_get(pairs@, "name"@) {
                Some(JsonValue::Str(s)) => f.name@ == s@,
                _ => false,
            }
            &&& match spec_obj_get(pairs@, "nullable"@) {
                Some(JsonValue::Bool(b)) => f.nullable == b,
                _ => false,
            }
            &&& match spec_obj_get(pairs@, "type"@) {
                Some(t) => spec_type_parses(t, f.data_type),
                None => false,
            }
        },
        _ => false,
    }
}

/// Looks up the first pair of the object with the given key.
fn obj_get<'a>(pairs: &'a Vec<(String, JsonValue)>, key: &str) -> (r: Option<&'a JsonValue>)
    ensures
        match r {
            Some(v) => spec_obj_get(pairs@, key@) == Some(*v),
            None => spec_obj_get(pairs@, key@) is None,
        },
{
    let n: usize = pairs.len();
    let mut i: usize = 0;
    proof {
        assert(pairs@.skip(0) =~= pairs@);
    }
    while i < n
        invariant
            0 <= i <= n,
            n == pairs@.len(),
            spec_obj_get(pairs@, key@) == spec_obj_get(pairs@.skip(i as int), key@),
        decreases n - i,
    {
        proof {
            assert(pairs@.skip(i as int).drop_first() =~= pairs@.skip(i + 1));
            assert(pairs@.skip(i as int)[0] == pairs@[i as int]);
        }
        if str_eq(pairs[i].0.as_str(), key) {
            return Some(&pairs[i].1);
        }
        i = i + 1;
    }
    proof {
        assert(pairs@.skip(n as int) =~= Seq::<(String, JsonValue)>::empty());
    }
    None
}

/// Builds a one-pair object `{key: value}`.
fn obj1(key: &str, value: JsonValue) -> (r: JsonValue)
    ensures
        r matches JsonValue::Object(pairs) && pairs@.len() == 1 && pairs@[0].0@ == key@
            && pairs@[0].1 == value,
{
    let mut pairs: Vec<(String, JsonValue)> = Vec::new();
    pairs.push((key.to_owned(), value));
    JsonValue::Object(pairs)
}

/// Builds the canonical integer object for the given width and signedness.
fn int_json(width: u64, signed: bool) -> (r: JsonValue)
    ensures
        spec_int_json(r, width, signed),
{
    let mut pairs: Vec<(String, JsonValue)> = Vec::new();
    pairs.push(("name".to_owned(), JsonValue::Str("int".to_owned())));
    pairs.push(("bitWidth".to_owned(), JsonValue::Number(width)));
    pairs.push(("isSigned".to_owned(), JsonValue::Bool(signed)));
    JsonValue::Object(pairs)
}

/// Builds the canonical floating-point object for the given precision.
fn float_json(precision: &str) -> (r: JsonValue)
    ensures
        spec_float_json(r, precision@),
{
    let mut pairs: Vec<(String, JsonValue)> = Vec::new();
    pairs.push(("name".to_owned(), JsonValue::Str("floatingpoint".to_owned())));
    pairs.push(("precision".to_owned(), JsonValue::Str(precision.to_owned())));
    JsonValue::Object(pairs)
}

/// Builds the canonical name-only object `{"name": name}`.
fn name_only_json(name: &str) -> (r: JsonValue)
    ensures
        spec_name_only_json(r, name@),
{
    obj1("name", JsonValue::Str(name.to_owned()))
}

impl DataType {
    /// Generates the JSON representation of this type, over the library's
    /// own JSON model.
    pub fn to_json_model(&self) -> (r: JsonValue)
        ensures
            spec_type_json(*self, r),
        decreases *self,
    {
        match self {
            DataType::Boolean => name_only_json("bool"),
            DataType::Utf8 => name_only_json("utf8"),
            DataType::Int8 => int_json(8, true),
            DataType::Int16 => int_json(16, true),
            DataType::Int32 => int_json(32, true),
            DataType::Int64 => int_json(64, true),
            DataType::UInt8 => int_json(8, false),
            DataType::UInt16 => int_json(16, false),
            DataType::UInt32 => int_json(32, false),
            DataType::UInt64 => int_json(64, false),
            DataType::Float16 => float_json("HALF"),
            DataType::Float32 => float_json("SINGLE"),
            DataType::Float64 => float_json("DOUBLE"),
            DataType::List(t) => {
                let child = t.to_json_model();
                let mut pairs: Vec<(String, JsonValue)> = Vec::new();
                pairs.push(("name".to_owned(), JsonValue::Str("list".to_owned())));
                pairs.push(("children".to_owned(), child));
                JsonValue::Object(pairs)
            },
            DataType::Struct(fields) => {
                let n: usize = fields.len();
                let mut elems: Vec<JsonValue> = Vec::new();
                let mut i: usize = 0;
                while i < n
                    invariant
                        0 <= i <= n,
                        n == fields@.len(),
                        self == DataType::Struct(*fields),
                        elems@.len() == i,
                        forall|k: int|
                            0 <= k < i ==> spec_field_json(#[trigger] fields@[k], elems@[k]),
                    decreases n - i,
                {
                    proof {
                        let ghost els = (*self)->Struct_0;
                        assert(els == *fields);
                        assert(decreases_to!(*self => els));
                        assert(decreases_to!(els => els@[i as int]));
                        assert(decreases_to!(*self => fields@[i as int]));
                    }
                    elems.push(fields[i].to_json_model());
                    i = i + 1;
                }
                obj1("fields", JsonValue::Array(elems))
            },
        }
    }

    /// Generates the serde_json representation of this type. The verified
    /// content lives in `to_json_model`; this converts the model tree to
    /// serde_json's opaque tree.
    pub fn to_json(&self) -> serde_json::Value {
        to_serde_value(&self.to_json_model())
    }

    /// Parses a logical type from the library's JSON model. Returns
    /// `Ok(dt)` exactly when some type parses from `j` (and then `dt` is
    /// it); otherwise a `ParseError`.
    pub fn from_model(j: &JsonValue) -> (r: Result<DataType, ArrowError>)
        ensures
            match r {
                Ok(dt) => spec_type_parses(*j, dt),
                Err(e) => e is ParseError && forall|dt: DataType| !spec_type_parses(*j, dt),
            },
        decreases *j,
    {
        let pairs = match j {
            JsonValue::Object(pairs) => pairs,
            _ => {
                return Err(ArrowError::ParseError("invalid json value type".to_owned()));
            },
        };
        let name = obj_get(pairs, "name");
        match name {
            Some(JsonValue::Str(s)) => {
                if str_eq(s.as_str(), "bool") {
                    Ok(DataType::Boolean)
                } else if str_eq(s.as_str(), "utf8") {
                    Ok(DataType::Utf8)
                } else if str_eq(s.as_str(), "floatingpoint") {
                    match obj_get(pairs, "precision") {
                        Some(JsonValue::Str(p)) => {
                            if str_eq(p.as_str(), "HALF") {
                                Ok(DataType::Float16)
                            } else if str_eq(p.as_str(), "SINGLE") {
                                Ok(DataType::Float32)
                            } else if str_eq(p.as_str(), "DOUBLE") {
                                Ok(DataType::Float64)
                            } else {
                                Err(ArrowError::ParseError(
                                    "floatingpoint precision missing or invalid".to_owned(),
                                ))
                            }
                        },
                        _ => Err(ArrowError::ParseError(
                            "floatingpoint precision missing or invalid".to_owned(),
                        )),
                    }
                } else if str_eq(s.as_str(), "int") {
                    match obj_get(pairs, "isSigned") {
                        Some(JsonValue::Bool(signed)) => match obj_get(pairs, "bitWidth") {
                            Some(JsonValue::Number(w)) => {
                                let width: u64 = *w;
                                if *signed {
                                    if width == 8 {
                                        Ok(DataType::Int8)
                                    } else if width == 16 {
                                        Ok(DataType::Int16)
                                    } else if width == 32 {
                                        Ok(DataType::Int32)
                                    } else if width == 64 {
                                        Ok(DataType::Int64)
                                    } else {
                                        Err(ArrowError::ParseError(
                                            "int bitWidth missing or invalid".to_owned(),
                                        ))
                                    }
                                } else {
                                    if width == 8 {
                                        Ok(DataType::UInt8)
                                    } else if width == 16 {
                                        Ok(DataType::UInt16)
                                    } else if width == 32 {
                                        Ok(DataType::UInt32)
                                    } else if width == 64 {
                                        Ok(DataType::UInt64)
                                    } else {
                                        Err(ArrowError::ParseError(
                                            "int bitWidth missing or invalid".to_owned(),
                                        ))
                                    }
                                }
                            },
                            _ => Err(ArrowError::ParseError(
                                "int bitWidth missing or invalid".to_owned(),
                            )),
                        },
                        _ => Err(ArrowError::ParseError(
                            "int signed missing or invalid".to_owned(),
                        )),
                    }
                } else if str_eq(s.as_str(), "list") {
                    match obj_get(pairs, "children") {
                        Some(child) => {
                            proof {
                                lemma_obj_get_element(pairs@, "children"@);
                                let i = choose|i: int|
                                    0 <= i < pairs@.len() && #[trigger] pairs@[i].1 == *child
                                        && pairs@[i].0@ == "children"@;
                                let ghost pv = (*j)->Object_0;
                                assert(pv == *pairs);
                                assert(decreases_to!(*j => pv));
                                assert(decreases_to!(pv => pv@[i]));
                                assert(decreases_to!(pv@[i] => pv@[i].1));
                                assert(decreases_to!(*j => *child));
                            }
                            match DataType::from_model(child) {
                                Ok(inner) => {
                                    let result = DataType::List(Box::new(inner));
                                    proof {
                                        assert(spec_type_parses(*j, result));
                                    }
                                    Ok(result)
                                },
                                Err(e) => {
                                    proof {
                                        assert forall|dt: DataType| !spec_type_parses(
                                            *j,
                                            dt,
                                        ) by {
                                            if spec_type_parses(*j, dt) {
                                                match dt {
                                                    DataType::List(t) => {
                                                        assert(spec_type_parses(*child, *t));
                                                    },
                                                    _ => {},
                                                }
                                            }
                                        }
                                    }
                                    Err(e)
                                },
                            }
                        },
                        None => Err(ArrowError::ParseError(
                            "list children missing or invalid".to_owned(),
                        )),
                    }
                } else {
                    let mut message: String = "invalid type name: ".to_owned();
                    message.append(s.as_str());
                    Err(ArrowError::ParseError(message))
                }
            },
            Some(_) => Err(ArrowError::ParseError("invalid type name".to_owned())),
            None => match obj_get(pairs, "fields") {
                Some(JsonValue::Array(elems)) => {
                    let ghost fields_value = spec_obj_get(pairs@, "fields"@)->Some_0;
                    let n: usize = elems.len();
                    let mut fs: Vec<Field> = Vec::new();
                    let mut i: usize = 0;
                    while i < n
                        invariant
                            0 <= i <= n,
                            n == elems@.len(),
                            fs@.len() == i,
                            spec_obj_get(pairs@, "name"@) is None,
                            spec_obj_get(pairs@, "fields"@) == Some(fields_value),
                            fields_value == JsonValue::Array(*elems),
                            j == JsonValue::Object(*pairs),
                            forall|k: int|
                                0 <= k < i ==> spec_field_parses(elems@[k], #[trigger] fs@[k]),
                        decreases n - i,
                    {
                        proof {
                            lemma_obj_get_element(pairs@, "fields"@);
                            let m = choose|m: int|
                                0 <= m < pairs@.len() && #[trigger] pairs@[m].1 == fields_value
                                    && pairs@[m].0@ == "fields"@;
                            let ghost pv = (*j)->Object_0;
                            assert(pv == *pairs);
                            assert(decreases_to!(*j => pv));
                            assert(decreases_to!(pv => pv@[m]));
                            assert(decreases_to!(pv@[m] => pv@[m].1));
                            let ghost ev = fields_value->Array_0;
                            assert(ev == *elems);
                            assert(decreases_to!(fields_value => ev));
                            assert(decreases_to!(ev => ev@[i as int]));
                            assert(decreases_to!(*j => elems@[i as int]));
                        }
                        match Field::from_model(&elems[i]) {
                            Ok(f) => {
                                fs.push(f);
                            },
                            Err(e) => {
                                proof {
                                    assert forall|dt: DataType| !spec_type_parses(
                                        *j,
                                        dt,
                                    ) by {
                                        if spec_type_parses(*j, dt) {
                                            match dt {
                                                DataType::Struct(gs) => {
                                                    assert(spec_field_parses(
                                                        elems@[i as int],
                                                        gs@[i as int],
                                                    ));
                                                },
                                                _ => {},
                                            }
                                        }
                                    }
                                }
                                return Err(e);
                            },
                        }
                        i = i + 1;
                    }
                    Ok(DataType::Struct(fs))
                },
                _ => Err(ArrowError::ParseError("empty type".to_owned())),
            },
        }
    }

    /// Parses a logical type from a serde_json value: the opaque tree is
    /// converted to the library's model and the verified parser runs on
    /// the model. What holds of the result is stated by `from_model`.
    pub fn from(json: &serde_json::Value) -> Result<DataType, ArrowError> {
        let model = from_serde_value(json);
        DataType::from_model(&model)
    }
}

impl Field {
    /// Generates the JSON representation of this field:
    /// `{"name": ..., "nullable": ..., "type": ...}`.
    pub fn to_json_model(&self) -> (r: JsonValue)
        ensures
            spec_field_json(*self, r),
        decreases *self,
    {
        let mut pairs: Vec<(String, JsonValue)> = Vec::new();
        pairs.push(("name".to_owned(), JsonValue::Str(self.name.clone())));
        pairs.push(("nullable".to_owned(), JsonValue::Bool(self.nullable)));
        pairs.push(("type".to_owned(), self.data_type.to_json_model()));
        JsonValue::Object(pairs)
    }

    /// Generates the serde_json representation of this field. The verified
    /// content lives in `to_json_model`.
    pub fn to_json(&self) -> serde_json::Value {
        to_serde_value(&self.to_json_model())
    }

    /// Parses a field definition from the library's JSON model. Returns
    /// `Ok(f)` exactly when some field parses from `j` (and then `f` is
    /// it); otherwise a `ParseError`.
    pub fn from_model(j: &JsonValue) -> (r: Result<Field, ArrowError>)
        ensures
            match r {
                Ok(f) => spec_field_parses(*j, f),
                Err(e) => e is ParseError && forall|f: Field| !spec_field_parses(*j, f),
            },
        decreases *j,
    {
        let pairs = match j {
            JsonValue::Object(pairs) => pairs,
            _ => {
                return Err(ArrowError::ParseError(
                    "Invalid json value type for field".to_owned(),
                ));
            },
        };
        let name: String = match obj_get(pairs, "name") {
            Some(JsonValue::Str(s)) => s.clone(),
            _ => {
                return Err(ArrowError::ParseError(
                    "Field missing 'name' attribute".to_owned(),
                ));
            },
        };
        let nullable: bool = match obj_get(pairs, "nullable") {
            Some(JsonValue::Bool(b)) => *b,
            _ => {
                return Err(ArrowError::ParseError(
                    "Field missing 'nullable' attribute".to_owned(),
                ));
            },
        };
        let type_value = match obj_get(pairs, "type") {
            Some(t) => t,
            None => {
                return Err(ArrowError::ParseError(
                    "Field missing 'type' attribute".to_owned(),
                ));
            },
        };
        proof {
            lemma_obj_get_element(pairs@, "type"@);
            let m = choose|m: int|
                0 <= m < pairs@.len() && #[trigger] pairs@[m].1 == *type_value && pairs@[m].0@
                    == "type"@;
            let ghost pv = (*j)->Object_0;
            assert(pv == *pairs);
            assert(decreases_to!(*j => pv));
            assert(decreases_to!(pv => pv@[m]));
            assert(decreases_to!(pv@[m] => pv@[m].1));
            assert(decreases_to!(*j => *type_value));
        }
        let data_type = match DataType::from_model(type_value) {
            Ok(dt) => dt,
            Err(e) => {
                proof {
                    assert forall|f: Field| !spec_field_parses(*j, f) by {
                        if spec_field_parses(*j, f) {
                            assert(spec_type_parses(*type_value, f.data_type));
                        }
                    }
                }
                return Err(e);
            },
        };
        Ok(Field::new(name.as_str(), data_type, nullable))
    }

    /// Parses a field from a serde_json value through the library's model.
    /// What holds of the result is stated by `from_model`.
    pub fn from(json: &serde_json::Value) -> Result<Field, ArrowError> {
        let model = from_serde_value(json);
        Field::from_model(&model)
    }
}

/// The distinct JSON tag and key strings of the metadata format, as
/// character sequences. Lookups and the parser's dispatch rely on these
/// being pairwise distinct.
proof fn lemma_distinct_tags()
    ensures
        "utf8"@ != "bool"@,
        "floatingpoint"@ != "bool"@,
        "floatingpoint"@ != "utf8"@,
        "int"@ != "bool"@,
        "int"@ != "utf8"@,
        "int"@ != "floatingpoint"@,
        "list"@ != "bool"@,
        "list"@ != "utf8"@,
        "list"@ != "floatingpoint"@,
        "list"@ != "int"@,
        "SINGLE"@ != "HALF"@,
        "DOUBLE"@ != "HALF"@,
        "DOUBLE"@ != "SINGLE"@,
        "name"@ != "isSigned"@,
        "bitWidth"@ != "isSigned"@,
        "name"@ != "bitWidth"@,
        "name"@ != "precision"@,
        "name"@ != "children"@,
        "fields"@ != "name"@,
        "name"@ != "nullable"@,
        "name"@ != "type"@,
        "nullable"@ != "type"@,
{
    reveal_strlit("bool");
    reveal_strlit("utf8");
    reveal_strlit("floatingpoint");
    reveal_strlit("int");
    reveal_strlit("list");
    reveal_strlit("HALF");
    reveal_strlit("SINGLE");
    reveal_strlit("DOUBLE");
    reveal_strlit("name");
    reveal_strlit("bitWidth");
    reveal_strlit("isSigned");
    reveal_strlit("precision");
    reveal_strlit("children");
    reveal_strlit("fields");
    reveal_strlit("nullable");
    reveal_strlit("type");
    assert("bool"@.len() == 4 && "utf8"@.len() == 4 && "floatingpoint"@.len() == 13
        && "int"@.len() == 3 && "list"@.len() == 4);
    assert("HALF"@.len() == 4 && "SINGLE"@.len() == 6 && "DOUBLE"@.len() == 6);
    assert("name"@.len() == 4 && "bitWidth"@.len() == 8 && "isSigned"@.len() == 8
        && "precision"@.len() == 9 && "children"@.len() == 8 && "fields"@.len() == 6
        && "nullable"@.len() == 8 && "type"@.len() == 4);
    assert("bool"@[0] == 'b' && "utf8"@[0] == 'u' && "list"@[0] == 'l');
    assert("SINGLE"@[0] == 'S' && "DOUBLE"@[0] == 'D');
    assert("bitWidth"@[0] == 'b' && "isSigned"@[0] == 'i');
    assert("name"@[0] == 'n' && "type"@[0] == 't');
}

/// The canonical round-trip on types: parsing the rendering of any
/// logical type yields a type structurally equal to the original. The
/// 64-bit signed rendering parses back to `Int64`.
pub proof fn lemma_type_json_round_trip(dt: DataType, j: JsonValue, dt2: DataType)
    requires
        spec_type_json(dt, j),
        spec_type_parses(j, dt2),
    ensures
        spec_dt_equal(dt2, dt),
    decreases dt,
{
    lemma_distinct_tags();
    lemma_type_json_lookups(dt, j);
    match dt {
        DataType::List(t) => {
            let pairs = j->Object_0;
            lemma_type_json_round_trip(*t, pairs@[1].1, *(dt2->List_0));
        },
        DataType::Struct(fields) => {
            let pairs = j->Object_0;
            let elems = pairs@[0].1->Array_0;
            let gs = dt2->Struct_0;
            assert forall|i: int| 0 <= i < fields@.len() implies spec_field_equal(
                #[trigger] gs@[i],
                fields@[i],
            ) by {
                assert(spec_field_json(fields@[i], elems@[i]));
                assert(spec_field_parses(elems@[i], gs@[i]));
                lemma_field_json_round_trip(fields@[i], elems@[i], gs@[i]);
            }
        },
        _ => {},
    }
}

/// The key lookups a parser performs on a rendered type resolve to the
/// pairs the rendering wrote.
proof fn lemma_type_json_lookups(dt: DataType, j: JsonValue)
    requires
        spec_type_json(dt, j),
    ensures
        match dt {
            DataType::Boolean | DataType::Utf8 => spec_obj_get(j->Object_0@, "name"@)
                == Some(j->Object_0@[0].1),
            DataType::Float16 | DataType::Float32 | DataType::Float64 => {
                &&& spec_obj_get(j->Object_0@, "name"@) == Some(j->Object_0@[0].1)
                &&& spec_obj_get(j->Object_0@, "precision"@) == Some(j->Object_0@[1].1)
            },
            DataType::Int8 | DataType::Int16 | DataType::Int32 | DataType::Int64
                | DataType::UInt8 | DataType::UInt16 | DataType::UInt32 | DataType::UInt64 => {
                &&& spec_obj_get(j->Object_0@, "name"@) == Some(j->Object_0@[0].1)
                &&& spec_obj_get(j->Object_0@, "bitWidth"@) == Some(j->Object_0@[1].1)
                &&& spec_obj_get(j->Object_0@, "isSigned"@) == Some(j->Object_0@[2].1)
            },
            DataType::List(t) => {
                &&& spec_obj_get(j->Object_0@, "name"@) == Some(j->Object_0@[0].1)
                &&& spec_obj_get(j->Object_0@, "children"@) == Some(j->Object_0@[1].1)
            },
            DataType::Struct(fields) => {
                &&& spec_obj_get(j->Object_0@, "name"@) is None
                &&& spec_obj_get(j->Object_0@, "fields"@) == Some(j->Object_0@[0].1)
            },
        },
{
    lemma_distinct_tags();
    let pairs = j->Object_0;
    match dt {
        DataType::Boolean | DataType::Utf8 => {
            lemma_obj_get_at(pairs@, "name"@, 0);
        },
        DataType::Float16 | DataType::Float32 | DataType::Float64 => {
            lemma_obj_get_at(pairs@, "name"@, 0);
            lemma_obj_get_at(pairs@, "precision"@, 1);
        },
        DataType::Int8 | DataType::Int16 | DataType::Int32 | DataType::Int64 | DataType::UInt8
            | DataType::UInt16 | DataType::UInt32 | DataType::UInt64 => {
            lemma_obj_get_at(pairs@, "name"@, 0);
            lemma_obj_get_at(pairs@, "bitWidth"@, 1);
            lemma_obj_get_at(pairs@, "isSigned"@, 2);
        },
        DataType::List(t) => {
            lemma_obj_get_at(pairs@, "name"@, 0);
            lemma_obj_get_at(pairs@, "children"@, 1);
        },
        DataType::Struct(fields) => {
            lemma_obj_get_none(pairs@, "name"@);
            lemma_obj_get_at(pairs@, "fields"@, 0);
        },
    }
}

/// The key lookups a parser performs on a rendered field resolve to the
/// pairs the rendering wrote.
proof fn lemma_field_json_lookups(f: Field, j: JsonValue)
    requires
        spec_field_json(f, j),
    ensures
        spec_obj_get(j->Object_0@, "name"@) == Some(j->Object_0@[0].1),
        spec_obj_get(j->Object_0@, "nullable"@) == Some(j->Object_0@[1].1),
        spec_obj_get(j->Object_0@, "type"@) == Some(j->Object_0@[2].1),
{
    lemma_distinct_tags();
    let pairs = j->Object_0;
    lemma_obj_get_at(pairs@, "name"@, 0);
    lemma_obj_get_at(pairs@, "nullable"@, 1);
    lemma_obj_get_at(pairs@, "type"@, 2);
}

/// The canonical round-trip on fields: parsing the rendering of any field
/// yields a field structurally equal to the original.
pub proof fn lemma_field_json_round_trip(f: Field, j: JsonValue, f2: Field)
    requires
        spec_field_json(f, j),
        spec_field_parses(j, f2),
    ensures
        spec_field_equal(f2, f),
    decreases f,
{
    lemma_field_json_lookups(f, j);
    let pairs = j->Object_0;
    lemma_type_json_round_trip(f.data_type, pairs@[2].1, f2.data_type);
}

/// The canonical round-trip, completeness direction: the rendering of any
/// logical type parses back to the very value that was rendered.
pub proof fn lemma_type_json_parses_self(dt: DataType, j: JsonValue)
    requires
        spec_type_json(dt, j),
    ensures
        spec_type_parses(j, dt),
    decreases dt,
{
    lemma_distinct_tags();
    lemma_type_json_lookups(dt, j);
    match dt {
        DataType::List(t) => {
            let pairs = j->Object_0;
            lemma_type_json_parses_self(*t, pairs@[1].1);
        },
        DataType::Struct(fields) => {
            let pairs = j->Object_0;
            let elems = pairs@[0].1->Array_0;
            assert forall|i: int| 0 <= i < fields@.len() implies spec_field_parses(
                elems@[i],
                #[trigger] fields@[i],
            ) by {
                assert(spec_field_json(fields@[i], elems@[i]));
                lemma_field_json_parses_self(fields@[i], elems@[i]);
            }
        },
        _ => {},
    }
}

/// The canonical round-trip, completeness direction: the rendering of any
/// field parses back to the very value that was rendered.
pub proof fn lemma_field_json_parses_self(f: Field, j: JsonValue)
    requires
        spec_field_json(f, j),
    ensures
        spec_field_parses(j, f),
    decreases f,
{
    lemma_field_json_lookups(f, j);
    let pairs = j->Object_0;
    lemma_type_json_parses_self(f.data_type, pairs@[2].1);
}

} // verus!

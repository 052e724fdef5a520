//! The bidirectional codec between native SQL column values and the dynamic
//! value model used at the caller boundary.
//!
//! Floating-point values are carried as the bit pattern of a 64-bit float, so
//! that the codec itself is exact: the driver layer turns bits into floats at
//! the engine boundary (widening a 32-bit float column losslessly before the
//! value reaches this core).

use vstd::prelude::*;
use crate::error::Error;

verus! {

/// The mathematical content of a [`DynValue`].
pub enum ValueModel {
    Null,
    Bool(bool),
    Int(int),
    /// The bit pattern of a 64-bit float.
    Real(u64),
    Text(Seq<char>),
    Blob(Seq<u8>),
}

/// A dynamic value: the tagged union at the query/result boundary, standing in
/// for whatever loosely-typed value model the host uses.
#[derive(Debug, Clone)]
pub enum DynValue {
    /// The null value.
    Null,
    /// A boolean.
    Bool(bool),
    /// A 64-bit signed integer, kept exact on the decode path.
    Int(i64),
    /// A 64-bit float, carried as its bit pattern.
    Real(u64),
    /// A text value.
    Text(String),
    /// A binary blob.
    Blob(Vec<u8>),
}

impl View for DynValue {
    type V = ValueModel;

    open spec fn view(&self) -> ValueModel {
        match self {
            DynValue::Null => ValueModel::Null,
            DynValue::Bool(b) => ValueModel::Bool(*b),
            DynValue::Int(i) => ValueModel::Int(*i as int),
            DynValue::Real(bits) => ValueModel::Real(*bits),
            DynValue::Text(s) => ValueModel::Text(s@),
            DynValue::Blob(b) => ValueModel::Blob(b@),
        }
    }
}

/// The mathematical content of a [`ColumnValue`].
pub enum ColumnModel {
    Null,
    Bool(bool),
    Int2(int),
    Int4(int),
    Int8(int),
    /// The bit pattern of a 64-bit float.
    Real(u64),
    Text(Seq<char>),
    Blob(Seq<u8>),
    /// A column of a native type the dynamic value model does not cover,
    /// carried as that type's name.
    Other(Seq<char>),
}

/// A raw SQL column value, as the driver layer hands it to the codec: one
/// variant per native column type the dynamic value model covers, and
/// [`ColumnValue::Other`] for every other native type.
#[derive(Debug, Clone)]
pub enum ColumnValue {
    /// A null column value.
    Null,
    /// A boolean column.
    Bool(bool),
    /// A 16-bit integer column.
    Int2(i16),
    /// A 32-bit integer column.
    Int4(i32),
    /// A 64-bit integer column.
    Int8(i64),
    /// A 64-bit float column, carried as its bit pattern; 32-bit float
    /// columns are widened losslessly by the driver layer.
    Real(u64),
    /// A text column.
    Text(String),
    /// A binary blob column.
    Blob(Vec<u8>),
    /// Any other native column type, carried as the engine's name for it.
    Other(String),
}

impl View for ColumnValue {
    type V = ColumnModel;

    open spec fn view(&self) -> ColumnModel {
        match self {
            ColumnValue::Null => ColumnModel::Null,
            ColumnValue::Bool(b) => ColumnModel::Bool(*b),
            ColumnValue::Int2(i) => ColumnModel::Int2(*i as int),
            ColumnValue::Int4(i) => ColumnModel::Int4(*i as int),
            ColumnValue::Int8(i) => ColumnModel::Int8(*i as int),
            ColumnValue::Real(bits) => ColumnModel::Real(*bits),
            ColumnValue::Text(s) => ColumnModel::Text(s@),
            ColumnValue::Blob(b) => ColumnModel::Blob(b@),
            ColumnValue::Other(name) => ColumnModel::Other(name@),
        }
    }
}

/// The mathematical content of a [`BoundParam`].
pub enum ParamModel {
    Null,
    Text(Seq<char>),
    FloatFromInt(int),
    FloatBits(u64),
    Native(ValueModel),
}

/// A bound query parameter: what the driver layer is told to hand the engine
/// for one dynamic value, in positional order.
#[derive(Debug, Clone)]
pub enum BoundParam {
    /// Bind the SQL null value.
    Null,
    /// Bind a text parameter.
    Text(String),
    /// Bind this integer as a 64-bit float parameter. This is the deliberate
    /// widening of the write path: numeric dynamic values are not told apart
    /// when binding, so integers above 53-bit magnitude may lose precision
    /// there even though the decode path keeps them exact.
    FloatFromInt(i64),
    /// Bind a 64-bit float parameter, given as its bit pattern.
    FloatBits(u64),
    /// Bind the engine's own native representation of this dynamic value.
    Native(DynValue),
}

impl View for BoundParam {
    type V = ParamModel;

    open spec fn view(&self) -> ParamModel {
        match self {
            BoundParam::Null => ParamModel::Null,
            BoundParam::Text(s) => ParamModel::Text(s@),
            BoundParam::FloatFromInt(i) => ParamModel::FloatFromInt(*i as int),
            BoundParam::FloatBits(bits) => ParamModel::FloatBits(*bits),
            BoundParam::Native(v) => ParamModel::Native(v@),
        }
    }
}

/// What [`decode`] returns: the dynamic value of a supported column, or the
/// type name of an unsupported one.
pub open spec fn spec_decode(c: ColumnModel) -> Result<ValueModel, Seq<char>> {
    match c {
        ColumnModel::Null => Ok(ValueModel::Null),
        ColumnModel::Bool(b) => Ok(ValueModel::Bool(b)),
        ColumnModel::Int2(i) => Ok(ValueModel::Int(i)),
        ColumnModel::Int4(i) => Ok(ValueModel::Int(i)),
        ColumnModel::Int8(i) => Ok(ValueModel::Int(i)),
        ColumnModel::Real(bits) => Ok(ValueModel::Real(bits)),
        ColumnModel::Text(s) => Ok(ValueModel::Text(s)),
        ColumnModel::Blob(b) => Ok(ValueModel::Blob(b)),
        ColumnModel::Other(name) => Err(name),
    }
}

/// Converts a raw column value into a dynamic value.
///
/// Integer columns of every width decode to the exact 64-bit integer; no
/// precision is lost on this path. A column of any unsupported native type
/// fails closed with [`Error::UnsupportedDatatype`] carrying that type's name.
pub fn decode(c: ColumnValue) -> (r: Result<DynValue, Error>)
    ensures
        match spec_decode(c@) {
            Ok(v) => r matches Ok(d) && d@ == v,
            Err(name) => r matches Err(e) && e matches Error::UnsupportedDatatype(s) && s@
                == name,
        },
{
    match c {
        ColumnValue::Null => Ok(DynValue::Null),
        ColumnValue::Bool(b) => Ok(DynValue::Bool(b)),
        ColumnValue::Int2(i) => Ok(DynValue::Int(i as i64)),
        ColumnValue::Int4(i) => Ok(DynValue::Int(i as i64)),
        ColumnValue::Int8(i) => Ok(DynValue::Int(i)),
        ColumnValue::Real(bits) => Ok(DynValue::Real(bits)),
        ColumnValue::Text(s) => Ok(DynValue::Text(s)),
        ColumnValue::Blob(b) => Ok(DynValue::Blob(b)),
        ColumnValue::Other(name) => Err(Error::UnsupportedDatatype(name)),
    }
}

/// What [`encode`] returns for each dynamic value.
pub open spec fn spec_encode(v: ValueModel) -> ParamModel {
    match v {
        ValueModel::Null => ParamModel::Null,
        ValueModel::Text(s) => ParamModel::Text(s),
        ValueModel::Int(i) => ParamModel::FloatFromInt(i),
        ValueModel::Real(bits) => ParamModel::FloatBits(bits),
        ValueModel::Bool(b) => ParamModel::Native(ValueModel::Bool(b)),
        ValueModel::Blob(b) => ParamModel::Native(ValueModel::Blob(b)),
    }
}

/// Converts a dynamic value into the parameter the engine is given.
///
/// Null binds as SQL null, text binds as text, and any numeric value binds as
/// a 64-bit float parameter — the deliberate, documented widening of the bind
/// path. Every other variant binds as the engine's native representation of
/// the dynamic value itself.
pub fn encode(v: DynValue) -> (r: BoundParam)
    ensures
        r@ == spec_encode(v@),
{
    match v {
        DynValue::Null => BoundParam::Null,
        DynValue::Text(s) => BoundParam::Text(s),
        DynValue::Int(i) => BoundParam::FloatFromInt(i),
        DynValue::Real(bits) => BoundParam::FloatBits(bits),
        DynValue::Bool(b) => BoundParam::Native(DynValue::Bool(b)),
        DynValue::Blob(b) => BoundParam::Native(DynValue::Blob(b)),
    }
}

/// Converts every dynamic value of a parameter list, in positional order.
pub fn encode_params(values: Vec<DynValue>) -> (r: Vec<BoundParam>)
    ensures
        r@.len() == values@.len(),
        forall|i: int| 0 <= i < values@.len() ==> #[trigger] r@[i]@ == spec_encode(values@[i]@),
{
    let ghost old_values = values@;
    let mut values = values;
    let mut out: Vec<BoundParam> = Vec::new();
    while values.len() > 0
        invariant
            out@.len() + values@.len() == old_values.len(),
            values@ =~= old_values.subrange(out@.len() as int, old_values.len() as int),
            forall|i: int| 0 <= i < out@.len() ==> #[trigger] out@[i]@ == spec_encode(
                old_values[i]@,
            ),
        decreases values@.len(),
    {
        let v = values.remove(0);
        out.push(encode(v));
        proof {
            assert(values@ =~= old_values.subrange(
                out@.len() as int,
                old_values.len() as int,
            ));
        }
    }
    out
}

/// The native column representation of a dynamic value: what the engine
/// stores when the value is bound in its own representation rather than
/// through the widening bind path.
pub open spec fn spec_native_column(v: ValueModel) -> ColumnModel {
    match v {
        ValueModel::Null => ColumnModel::Null,
        ValueModel::Bool(b) => ColumnModel::Bool(b),
        ValueModel::Int(i) => ColumnModel::Int8(i),
        ValueModel::Real(bits) => ColumnModel::Real(bits),
        ValueModel::Text(s) => ColumnModel::Text(s),
        ValueModel::Blob(b) => ColumnModel::Blob(b),
    }
}

/// Writes a dynamic value as the raw column value of its native column type.
pub fn encode_as_native(v: DynValue) -> (r: ColumnValue)
    ensures
        r@ == spec_native_column(v@),
{
    match v {
        DynValue::Null => ColumnValue::Null,
        DynValue::Bool(b) => ColumnValue::Bool(b),
        DynValue::Int(i) => ColumnValue::Int8(i),
        DynValue::Real(bits) => ColumnValue::Real(bits),
        DynValue::Text(s) => ColumnValue::Text(s),
        DynValue::Blob(b) => ColumnValue::Blob(b),
    }
}

/// The codec round-trip law: decoding the native column representation of any
/// dynamic value gives that value back. Integers of the full 64-bit range,
/// float bit patterns, strings, blobs, null and booleans all survive exactly.
pub proof fn lemma_native_round_trip(v: ValueModel)
    ensures
        spec_decode(spec_native_column(v)) == Ok::<ValueModel, Seq<char>>(v),
{
}

} // verus!

//! The remote column store's side of the marshalling: its column types,
//! its values, and the conversions between them and canonical cells.

use crate::cell::{Cell, CellView, Real32, Real32View, Real64, Real64View};
use crate::datetime::{Date, Timestamp, EPOCH_OFFSET_DAYS, MICROS_PER_SEC, PG_EPOCH_SEC};
use crate::error::{FdwError, FdwErrorView, ParseKind};
use crate::numeric::Numeric;
use crate::text::{digits_of, push_digits, push_str, string_of};
use vstd::prelude::*;

verus! {

/// The declared type of a remote column.
#[derive(Debug, PartialEq)]
pub enum RemoteType {
    Bool,
    Int8,
    UInt8,
    Int16,
    UInt16,
    Int32,
    UInt32,
    Int64,
    UInt64,
    Int128,
    UInt128,
    Int256,
    UInt256,
    Float32,
    Float64,
    /// A decimal of the given precision and scale.
    Decimal(u8, u8),
    String,
    /// A text of the given fixed length.
    FixedString(usize),
    Date,
    DateTime,
    Uuid,
    Nullable(Box<RemoteType>),
    Array(Box<RemoteType>),
    /// Any other type, under the name that the remote system gives it.
    Other(String),
}

/// A decimal as the remote system holds it: `underlying` divided by ten to
/// the power `scale`.
#[derive(Debug, Clone, Copy, PartialEq, Eq, Structural)]
pub struct RemoteDecimal {
    pub underlying: i64,
    pub scale: u8,
}

/// A value of a remote column. The null of a nullable column is the
/// absence of a value.
#[derive(Debug, Clone, PartialEq)]
pub enum RemoteValue {
    Bool(bool),
    Int8(i8),
    UInt8(u8),
    Int16(i16),
    UInt16(u16),
    Int32(i32),
    UInt32(u32),
    Int64(i64),
    UInt64(u64),
    Int128(i128),
    UInt128(u128),
    /// A signed 256-bit integer as its decimal text.
    Int256(String),
    /// An unsigned 256-bit integer as its decimal text.
    UInt256(String),
    Float32(Real32),
    Float64(Real64),
    Decimal(RemoteDecimal),
    String(String),
    /// Days since 1 January 1970.
    Date(u16),
    /// Seconds since the Unix epoch.
    DateTime(u32),
    Uuid(u128),
    BoolArray(Vec<bool>),
    Int16Array(Vec<i16>),
    Int32Array(Vec<i32>),
    Int64Array(Vec<i64>),
    Float32Array(Vec<Real32>),
    Float64Array(Vec<Real64>),
    StringArray(Vec<String>),
}

/// The content of a [`RemoteValue`].
pub enum RemoteValueView {
    Bool(bool),
    Int8(i8),
    UInt8(u8),
    Int16(i16),
    UInt16(u16),
    Int32(i32),
    UInt32(u32),
    Int64(i64),
    UInt64(u64),
    Int128(i128),
    UInt128(u128),
    Int256(Seq<char>),
    UInt256(Seq<char>),
    Float32(Real32View),
    Float64(Real64View),
    Decimal(RemoteDecimal),
    String(Seq<char>),
    Date(u16),
    DateTime(u32),
    Uuid(u128),
    BoolArray(Seq<bool>),
    Int16Array(Seq<i16>),
    Int32Array(Seq<i32>),
    Int64Array(Seq<i64>),
    Float32Array(Seq<Real32View>),
    Float64Array(Seq<Real64View>),
    StringArray(Seq<Seq<char>>),
}

/// The views of a row of values.
pub open spec fn views_of<T: View>(s: Seq<T>) -> Seq<T::V> {
    Seq::new(s.len(), |i: int| s[i]@)
}

impl View for RemoteValue {
    type V = RemoteValueView;

    open spec fn view(&self) -> RemoteValueView {
        match self {
            RemoteValue::Bool(v) => RemoteValueView::Bool(*v),
            RemoteValue::Int8(v) => RemoteValueView::Int8(*v),
            RemoteValue::UInt8(v) => RemoteValueView::UInt8(*v),
            RemoteValue::Int16(v) => RemoteValueView::Int16(*v),
            RemoteValue::UInt16(v) => RemoteValueView::UInt16(*v),
            RemoteValue::Int32(v) => RemoteValueView::Int32(*v),
            RemoteValue::UInt32(v) => RemoteValueView::UInt32(*v),
            RemoteValue::Int64(v) => RemoteValueView::Int64(*v),
            RemoteValue::UInt64(v) => RemoteValueView::UInt64(*v),
            RemoteValue::Int128(v) => RemoteValueView::Int128(*v),
            RemoteValue::UInt128(v) => RemoteValueView::UInt128(*v),
            RemoteValue::Int256(v) => RemoteValueView::Int256(v@),
            RemoteValue::UInt256(v) => RemoteValueView::UInt256(v@),
            RemoteValue::Float32(v) => RemoteValueView::Float32(v@),
            RemoteValue::Float64(v) => RemoteValueView::Float64(v@),
            RemoteValue::Decimal(v) => RemoteValueView::Decimal(*v),
            RemoteValue::String(v) => RemoteValueView::String(v@),
            RemoteValue::Date(v) => RemoteValueView::Date(*v),
            RemoteValue::DateTime(v) => RemoteValueView::DateTime(*v),
            RemoteValue::Uuid(v) => RemoteValueView::Uuid(*v),
            RemoteValue::BoolArray(v) => RemoteValueView::BoolArray(v@),
            RemoteValue::Int16Array(v) => RemoteValueView::Int16Array(v@),
            RemoteValue::Int32Array(v) => RemoteValueView::Int32Array(v@),
            RemoteValue::Int64Array(v) => RemoteValueView::Int64Array(v@),
            RemoteValue::Float32Array(v) => RemoteValueView::Float32Array(views_of(v@)),
            RemoteValue::Float64Array(v) => RemoteValueView::Float64Array(views_of(v@)),
            RemoteValue::StringArray(v) => RemoteValueView::StringArray(views_of(v@)),
        }
    }
}

/// The name of a remote type, as the remote system writes it.
pub open spec fn remote_name(ty: RemoteType) -> Seq<char>
    decreases ty,
{
    match ty {
        RemoteType::Bool => "Bool"@,
        RemoteType::Int8 => "Int8"@,
        RemoteType::UInt8 => "UInt8"@,
        RemoteType::Int16 => "Int16"@,
        RemoteType::UInt16 => "UInt16"@,
        RemoteType::Int32 => "Int32"@,
        RemoteType::UInt32 => "UInt32"@,
        RemoteType::Int64 => "Int64"@,
        RemoteType::UInt64 => "UInt64"@,
        RemoteType::Int128 => "Int128"@,
        RemoteType::UInt128 => "UInt128"@,
        RemoteType::Int256 => "Int256"@,
        RemoteType::UInt256 => "UInt256"@,
        RemoteType::Float32 => "Float32"@,
        RemoteType::Float64 => "Float64"@,
        RemoteType::Decimal(p, s) => "Decimal("@ + digits_of(p as nat) + ", "@ + digits_of(
            s as nat,
        ) + ")"@,
        RemoteType::String => "String"@,
        RemoteType::FixedString(n) => "FixedString("@ + digits_of(n as nat) + ")"@,
        RemoteType::Date => "Date"@,
        RemoteType::DateTime => "DateTime"@,
        RemoteType::Uuid => "UUID"@,
        RemoteType::Nullable(inner) => "Nullable("@ + remote_name(*inner) + ")"@,
        RemoteType::Array(inner) => "Array("@ + remote_name(*inner) + ")"@,
        RemoteType::Other(name) => name@,
    }
}

impl RemoteType {
    /// Appends the name of the type to `buf`.
    pub fn push_name(&self, buf: &mut Vec<char>)
        ensures
            final(buf)@ == old(buf)@ + remote_name(*self),
        decreases self,
    {
        match self {
            RemoteType::Bool => push_str(buf, "Bool"),
            RemoteType::Int8 => push_str(buf, "Int8"),
            RemoteType::UInt8 => push_str(buf, "UInt8"),
            RemoteType::Int16 => push_str(buf, "Int16"),
            RemoteType::UInt16 => push_str(buf, "UInt16"),
            RemoteType::Int32 => push_str(buf, "Int32"),
            RemoteType::UInt32 => push_str(buf, "UInt32"),
            RemoteType::Int64 => push_str(buf, "Int64"),
            RemoteType::UInt64 => push_str(buf, "UInt64"),
            RemoteType::Int128 => push_str(buf, "Int128"),
            RemoteType::UInt128 => push_str(buf, "UInt128"),
            RemoteType::Int256 => push_str(buf, "Int256"),
            RemoteType::UInt256 => push_str(buf, "UInt256"),
            RemoteType::Float32 => push_str(buf, "Float32"),
            RemoteType::Float64 => push_str(buf, "Float64"),
            RemoteType::Decimal(p, s) => {
                push_str(buf, "Decimal(");
                push_digits(buf, *p as u128);
                push_str(buf, ", ");
                push_digits(buf, *s as u128);
                push_str(buf, ")");
            },
            RemoteType::String => push_str(buf, "String"),
            RemoteType::FixedString(n) => {
                push_str(buf, "FixedString(");
                push_digits(buf, *n as u128);
                push_str(buf, ")");
            },
            RemoteType::Date => push_str(buf, "Date"),
            RemoteType::DateTime => push_str(buf, "DateTime"),
            RemoteType::Uuid => push_str(buf, "UUID"),
            RemoteType::Nullable(inner) => {
                push_str(buf, "Nullable(");
                inner.push_name(buf);
                push_str(buf, ")");
            },
            RemoteType::Array(inner) => {
                push_str(buf, "Array(");
                inner.push_name(buf);
                push_str(buf, ")");
            },
            RemoteType::Other(name) => push_str(buf, name.as_str()),
        }
    }

    /// The name of the type.
    pub fn name(&self) -> (s: String)
        ensures
            s@ == remote_name(*self),
    {
        let mut buf: Vec<char> = Vec::new();
        self.push_name(&mut buf);
        string_of(&buf)
    }

    /// The error that names this type as one without a conversion.
    pub fn unsupported(&self) -> (e: FdwError)
        ensures
            e@ == FdwErrorView::UnsupportedColumnType(remote_name(*self)),
    {
        FdwError::UnsupportedColumnType(self.name())
    }
}

/// Whether a type is one of the scalar types that have a conversion.
pub open spec fn is_readable_scalar(ty: RemoteType) -> bool {
    match ty {
        RemoteType::Nullable(_) => false,
        RemoteType::Array(_) => false,
        RemoteType::Other(_) => false,
        _ => true,
    }
}

/// Whether lists of this type have a conversion.
pub open spec fn is_readable_item(ty: RemoteType) -> bool {
    match ty {
        RemoteType::Bool => true,
        RemoteType::Int16 => true,
        RemoteType::Int32 => true,
        RemoteType::Int64 => true,
        RemoteType::Float32 => true,
        RemoteType::Float64 => true,
        RemoteType::String => true,
        _ => false,
    }
}

/// Every item of a list as a present one.
pub open spec fn somes<T>(s: Seq<T>) -> Seq<Option<T>> {
    Seq::new(s.len(), |i: int| Some(s[i]))
}

/// The cell that a value of a scalar column is read as. Unsigned integers
/// of 8, 16 and 32 bits become signed ones of twice the width; those of 64
/// bits keep their bits; 128-bit integers become decimals; 256-bit
/// integers stay decimal text; dates and instants move from the Unix epoch
/// to the canonical one. A value of another kind than its column is a
/// breach of protocol.
pub open spec fn read_scalar(ty: RemoteType, v: RemoteValueView) -> Result<CellView, FdwErrorView> {
    match ty {
        RemoteType::Bool => match v {
            RemoteValueView::Bool(x) => Ok(CellView::Bool(x)),
            _ => Err(FdwErrorView::RemoteProtocol),
        },
        RemoteType::Int8 => match v {
            RemoteValueView::Int8(x) => Ok(CellView::I8(x)),
            _ => Err(FdwErrorView::RemoteProtocol),
        },
        RemoteType::UInt8 => match v {
            RemoteValueView::UInt8(x) => Ok(CellView::I16(x as i16)),
            _ => Err(FdwErrorView::RemoteProtocol),
        },
        RemoteType::Int16 => match v {
            RemoteValueView::Int16(x) => Ok(CellView::I16(x)),
            _ => Err(FdwErrorView::RemoteProtocol),
        },
        RemoteType::UInt16 => match v {
            RemoteValueView::UInt16(x) => Ok(CellView::I32(x as i32)),
            _ => Err(FdwErrorView::RemoteProtocol),
        },
        RemoteType::Int32 => match v {
            RemoteValueView::Int32(x) => Ok(CellView::I32(x)),
            _ => Err(FdwErrorView::RemoteProtocol),
        },
        RemoteType::UInt32 => match v {
            RemoteValueView::UInt32(x) => Ok(CellView::I64(x as i64)),
            _ => Err(FdwErrorView::RemoteProtocol),
        },
        RemoteType::Int64 => match v {
            RemoteValueView::Int64(x) => Ok(CellView::I64(x)),
            _ => Err(FdwErrorView::RemoteProtocol),
        },
        RemoteType::UInt64 => match v {
            RemoteValueView::UInt64(x) => Ok(CellView::I64(x as i64)),
            _ => Err(FdwErrorView::RemoteProtocol),
        },
        RemoteType::Int128 => match v {
            RemoteValueView::Int128(x) => Ok(CellView::Numeric(Numeric::spec_from_int(x as int, 0))),
            _ => Err(FdwErrorView::RemoteProtocol),
        },
        RemoteType::UInt128 => match v {
            RemoteValueView::UInt128(x) => Ok(
                CellView::Numeric(Numeric::spec_from_int(x as int, 0)),
            ),
            _ => Err(FdwErrorView::RemoteProtocol),
        },
        RemoteType::Int256 => match v {
            RemoteValueView::Int256(x) => Ok(CellView::String(x)),
            _ => Err(FdwErrorView::RemoteProtocol),
        },
        RemoteType::UInt256 => match v {
            RemoteValueView::UInt256(x) => Ok(CellView::String(x)),
            _ => Err(FdwErrorView::RemoteProtocol),
        },
        RemoteType::Float32 => match v {
            RemoteValueView::Float32(x) => Ok(CellView::F32(x)),
            _ => Err(FdwErrorView::RemoteProtocol),
        },
        RemoteType::Float64 => match v {
            RemoteValueView::Float64(x) => Ok(CellView::F64(x)),
            _ => Err(FdwErrorView::RemoteProtocol),
        },
        RemoteType::Decimal(_, _) => match v {
            RemoteValueView::Decimal(d) => if d.scale <= crate::numeric::MAX_SCALE {
                Ok(CellView::Numeric(Numeric::spec_from_int(d.underlying as int, d.scale)))
            } else {
                Err(FdwErrorView::ValueParse(ParseKind::Decimal))
            },
            _ => Err(FdwErrorView::RemoteProtocol),
        },
        RemoteType::String => match v {
            RemoteValueView::String(x) => Ok(CellView::String(x)),
            _ => Err(FdwErrorView::RemoteProtocol),
        },
        RemoteType::FixedString(_) => match v {
            RemoteValueView::String(x) => Ok(CellView::String(x)),
            _ => Err(FdwErrorView::RemoteProtocol),
        },
        RemoteType::Date => match v {
            RemoteValueView::Date(x) => Ok(
                CellView::Date(Date { days: (x - EPOCH_OFFSET_DAYS) as i32 }),
            ),
            _ => Err(FdwErrorView::RemoteProtocol),
        },
        RemoteType::DateTime => match v {
            RemoteValueView::DateTime(x) => Ok(
                CellView::Timestamp(
                    Timestamp { micros: ((x - PG_EPOCH_SEC) * MICROS_PER_SEC) as i64 },
                ),
            ),
            _ => Err(FdwErrorView::RemoteProtocol),
        },
        RemoteType::Uuid => match v {
            RemoteValueView::Uuid(x) => Ok(CellView::Uuid(x)),
            _ => Err(FdwErrorView::RemoteProtocol),
        },
        _ => Err(FdwErrorView::UnsupportedColumnType(remote_name(ty))),
    }
}

/// The cell that a list of a remote column is read as: each item a
/// present one. A value that is no list of the column's items is a breach
/// of protocol.
pub open spec fn read_list(item: RemoteType, v: RemoteValueView) -> Result<CellView, FdwErrorView> {
    match item {
        RemoteType::Bool => match v {
            RemoteValueView::BoolArray(x) => Ok(CellView::BoolArray(somes(x))),
            _ => Err(FdwErrorView::RemoteProtocol),
        },
        RemoteType::Int16 => match v {
            RemoteValueView::Int16Array(x) => Ok(CellView::I16Array(somes(x))),
            _ => Err(FdwErrorView::RemoteProtocol),
        },
        RemoteType::Int32 => match v {
            RemoteValueView::Int32Array(x) => Ok(CellView::I32Array(somes(x))),
            _ => Err(FdwErrorView::RemoteProtocol),
        },
        RemoteType::Int64 => match v {
            RemoteValueView::Int64Array(x) => Ok(CellView::I64Array(somes(x))),
            _ => Err(FdwErrorView::RemoteProtocol),
        },
        RemoteType::Float32 => match v {
            RemoteValueView::Float32Array(x) => Ok(CellView::F32Array(somes(x))),
            _ => Err(FdwErrorView::RemoteProtocol),
        },
        RemoteType::Float64 => match v {
            RemoteValueView::Float64Array(x) => Ok(CellView::F64Array(somes(x))),
            _ => Err(FdwErrorView::RemoteProtocol),
        },
        _ => match v {
            RemoteValueView::StringArray(x) => Ok(CellView::StringArray(somes(x))),
            _ => Err(FdwErrorView::RemoteProtocol),
        },
    }
}

/// The optional cell that a field of a remote row is read as. A nullable
/// scalar column gives no cell for the null; lists are read one level
/// deep; every other type, nested ones too, is an error that names the
/// type.
pub open spec fn read_field(ty: RemoteType, value: Option<RemoteValueView>) -> Result<
    Option<CellView>,
    FdwErrorView,
> {
    match ty {
        RemoteType::Nullable(inner) => if is_readable_scalar(*inner) {
            match value {
                None => Ok(None),
                Some(v) => match read_scalar(*inner, v) {
                    Ok(c) => Ok(Some(c)),
                    Err(e) => Err(e),
                },
            }
        } else {
            Err(FdwErrorView::UnsupportedColumnType(remote_name(ty)))
        },
        RemoteType::Array(item) => if is_readable_item(*item) {
            match value {
                None => Err(FdwErrorView::RemoteProtocol),
                Some(v) => match read_list(*item, v) {
                    Ok(c) => Ok(Some(c)),
                    Err(e) => Err(e),
                },
            }
        } else {
            Err(FdwErrorView::UnsupportedColumnType(remote_name(ty)))
        },
        RemoteType::Other(_) => Err(FdwErrorView::UnsupportedColumnType(remote_name(ty))),
        _ => match value {
            None => Err(FdwErrorView::RemoteProtocol),
            Some(v) => match read_scalar(ty, v) {
                Ok(c) => Ok(Some(c)),
                Err(e) => Err(e),
            },
        },
    }
}

/// A list of plain values, each as a present item.
pub fn wrap_plain<T: Copy>(v: &Vec<T>) -> (r: Vec<Option<T>>)
    ensures
        r@ == somes(v@),
{
    let mut r: Vec<Option<T>> = Vec::new();
    let mut i: usize = 0;
    while i < v.len()
        invariant
            i <= v.len(),
            r@ == somes(v@.take(i as int)),
        decreases v.len() - i,
    {
        r.push(Some(v[i]));
        i += 1;
        assert(r@ =~= somes(v@.take(i as int)));
    }
    assert(v@.take(v.len() as int) == v@);
    r
}

/// A list of texts, each as a present item.
pub fn wrap_texts(v: &Vec<String>) -> (r: Vec<Option<String>>)
    ensures
        crate::cell::opts_view(r@) == somes(views_of(v@)),
{
    let mut r: Vec<Option<String>> = Vec::new();
    let mut i: usize = 0;
    while i < v.len()
        invariant
            i <= v.len(),
            crate::cell::opts_view(r@) == somes(views_of(v@.take(i as int))),
        decreases v.len() - i,
    {
        let item = Some(v[i].clone());
        proof {
            crate::cell::lemma_opts_view_push(r@, item);
        }
        r.push(item);
        i += 1;
        assert(crate::cell::opts_view(r@) =~= somes(views_of(v@.take(i as int))));
    }
    assert(v@.take(v.len() as int) == v@);
    r
}

/// A list of 32-bit floating-point numbers, each as a present item.
pub fn wrap_reals32(v: &Vec<Real32>) -> (r: Vec<Option<Real32>>)
    ensures
        crate::cell::opts_view(r@) == somes(views_of(v@)),
{
    let mut r: Vec<Option<Real32>> = Vec::new();
    let mut i: usize = 0;
    while i < v.len()
        invariant
            i <= v.len(),
            crate::cell::opts_view(r@) == somes(views_of(v@.take(i as int))),
        decreases v.len() - i,
    {
        let item = Some(v[i].duplicate());
        proof {
            crate::cell::lemma_opts_view_push(r@, item);
        }
        r.push(item);
        i += 1;
        assert(crate::cell::opts_view(r@) =~= somes(views_of(v@.take(i as int))));
    }
    assert(v@.take(v.len() as int) == v@);
    r
}

/// A list of 64-bit floating-point numbers, each as a present item.
pub fn wrap_reals64(v: &Vec<Real64>) -> (r: Vec<Option<Real64>>)
    ensures
        crate::cell::opts_view(r@) == somes(views_of(v@)),
{
    let mut r: Vec<Option<Real64>> = Vec::new();
    let mut i: usize = 0;
    while i < v.len()
        invariant
            i <= v.len(),
            crate::cell::opts_view(r@) == somes(views_of(v@.take(i as int))),
        decreases v.len() - i,
    {
        let item = Some(v[i].duplicate());
        proof {
            crate::cell::lemma_opts_view_push(r@, item);
        }
        r.push(item);
        i += 1;
        assert(crate::cell::opts_view(r@) =~= somes(views_of(v@.take(i as int))));
    }
    assert(v@.take(v.len() as int) == v@);
    r
}

/// Whether a type is one of the scalar types that have a conversion.
pub fn readable_scalar(ty: &RemoteType) -> (r: bool)
    ensures
        r == is_readable_scalar(*ty),
{
    match ty {
        RemoteType::Nullable(_) => false,
        RemoteType::Array(_) => false,
        RemoteType::Other(_) => false,
        _ => true,
    }
}

/// Reads a value of a scalar column as a cell.
pub fn scalar_to_cell(ty: &RemoteType, v: &RemoteValue) -> (r: Result<Cell, FdwError>)
    ensures
        match read_scalar(*ty, v@) {
            Ok(c) => r matches Ok(x) && x@ == c,
            Err(e) => r matches Err(x) && x@ == e,
        },
{
    match (ty, v) {
        (RemoteType::Bool, RemoteValue::Bool(x)) => Ok(Cell::Bool(*x)),
        (RemoteType::Int8, RemoteValue::Int8(x)) => Ok(Cell::I8(*x)),
        (RemoteType::UInt8, RemoteValue::UInt8(x)) => Ok(Cell::I16(*x as i16)),
        (RemoteType::Int16, RemoteValue::Int16(x)) => Ok(Cell::I16(*x)),
        (RemoteType::UInt16, RemoteValue::UInt16(x)) => Ok(Cell::I32(*x as i32)),
        (RemoteType::Int32, RemoteValue::Int32(x)) => Ok(Cell::I32(*x)),
        (RemoteType::UInt32, RemoteValue::UInt32(x)) => Ok(Cell::I64(*x as i64)),
        (RemoteType::Int64, RemoteValue::Int64(x)) => Ok(Cell::I64(*x)),
        (RemoteType::UInt64, RemoteValue::UInt64(x)) => Ok(Cell::I64(*x as i64)),
        (RemoteType::Int128, RemoteValue::Int128(x)) => Ok(Cell::Numeric(Numeric::from_i128(*x))),
        (RemoteType::UInt128, RemoteValue::UInt128(x)) => Ok(
            Cell::Numeric(Numeric::from_u128(*x)),
        ),
        (RemoteType::Int256, RemoteValue::Int256(x)) => Ok(Cell::String(x.clone())),
        (RemoteType::UInt256, RemoteValue::UInt256(x)) => Ok(Cell::String(x.clone())),
        (RemoteType::Float32, RemoteValue::Float32(x)) => Ok(Cell::F32(x.duplicate())),
        (RemoteType::Float64, RemoteValue::Float64(x)) => Ok(Cell::F64(x.duplicate())),
        (RemoteType::Decimal(_, _), RemoteValue::Decimal(d)) => match Numeric::from_scaled(
            d.underlying,
            d.scale,
        ) {
            Some(n) => Ok(Cell::Numeric(n)),
            None => Err(FdwError::ValueParse(ParseKind::Decimal)),
        },
        (RemoteType::String, RemoteValue::String(x)) => Ok(Cell::String(x.clone())),
        (RemoteType::FixedString(_), RemoteValue::String(x)) => Ok(Cell::String(x.clone())),
        (RemoteType::Date, RemoteValue::Date(x)) => Ok(
            Cell::Date(Date { days: *x as i32 - EPOCH_OFFSET_DAYS }),
        ),
        (RemoteType::DateTime, RemoteValue::DateTime(x)) => Ok(
            Cell::Timestamp(Timestamp { micros: (*x as i64 - PG_EPOCH_SEC) * MICROS_PER_SEC }),
        ),
        (RemoteType::Uuid, RemoteValue::Uuid(x)) => Ok(Cell::Uuid(*x)),
        _ => if readable_scalar(ty) {
            Err(FdwError::RemoteProtocol)
        } else {
            Err(ty.unsupported())
        },
    }
}

/// Reads a list of a remote column as a cell.
pub(crate) fn list_to_cell(item: &RemoteType, v: &RemoteValue) -> (r: Result<Cell, FdwError>)
    requires
        is_readable_item(*item),
    ensures
        match read_list(*item, v@) {
            Ok(c) => r matches Ok(x) && x@ == c,
            Err(e) => r matches Err(x) && x@ == e,
        },
{
    match (item, v) {
        (RemoteType::Bool, RemoteValue::BoolArray(x)) => Ok(Cell::BoolArray(wrap_plain(x))),
        (RemoteType::Int16, RemoteValue::Int16Array(x)) => Ok(Cell::I16Array(wrap_plain(x))),
        (RemoteType::Int32, RemoteValue::Int32Array(x)) => Ok(Cell::I32Array(wrap_plain(x))),
        (RemoteType::Int64, RemoteValue::Int64Array(x)) => Ok(Cell::I64Array(wrap_plain(x))),
        (RemoteType::Float32, RemoteValue::Float32Array(x)) => Ok(
            Cell::F32Array(wrap_reals32(x)),
        ),
        (RemoteType::Float64, RemoteValue::Float64Array(x)) => Ok(
            Cell::F64Array(wrap_reals64(x)),
        ),
        (RemoteType::String, RemoteValue::StringArray(x)) => Ok(Cell::StringArray(wrap_texts(x))),
        _ => Err(FdwError::RemoteProtocol),
    }
}

/// Whether lists of this type have a conversion.
pub fn readable_item(ty: &RemoteType) -> (r: bool)
    ensures
        r == is_readable_item(*ty),
{
    match ty {
        RemoteType::Bool => true,
        RemoteType::Int16 => true,
        RemoteType::Int32 => true,
        RemoteType::Int64 => true,
        RemoteType::Float32 => true,
        RemoteType::Float64 => true,
        RemoteType::String => true,
        _ => false,
    }
}

/// Reads one field of a remote row as an optional cell.
pub fn field_to_cell(ty: &RemoteType, value: &Option<RemoteValue>) -> (r: Result<
    Option<Cell>,
    FdwError,
>)
    ensures
        match read_field(*ty, crate::cell::opt_view(*value)) {
            Ok(c) => r matches Ok(x) && crate::cell::opt_view(x) == c,
            Err(e) => r matches Err(x) && x@ == e,
        },
{
    match ty {
        RemoteType::Nullable(inner) => {
            if !readable_scalar(inner) {
                return Err(ty.unsupported());
            }
            match value {
                None => Ok(None),
                Some(v) => match scalar_to_cell(inner, v) {
                    Ok(c) => Ok(Some(c)),
                    Err(e) => Err(e),
                },
            }
        },
        RemoteType::Array(item) => {
            if !readable_item(item) {
                return Err(ty.unsupported());
            }
            match value {
                None => Err(FdwError::RemoteProtocol),
                Some(v) => match list_to_cell(item, v) {
                    Ok(c) => Ok(Some(c)),
                    Err(e) => Err(e),
                },
            }
        },
        RemoteType::Other(_) => Err(ty.unsupported()),
        _ => match value {
            None => Err(FdwError::RemoteProtocol),
            Some(v) => match scalar_to_cell(ty, v) {
                Ok(c) => Ok(Some(c)),
                Err(e) => Err(e),
            },
        },
    }
}

/// A value on its way to a remote column, with the mark of a nullable
/// column.
#[derive(Debug, Clone, PartialEq)]
pub struct RemoteField {
    pub value: RemoteValue,
    pub nullable: bool,
}

/// The number that the proleptic Gregorian calendar gives 1 January 1970.
pub const UNIX_DAY_FROM_CE: i32 = 719_163;

/// Whether a column is declared nullable.
pub open spec fn is_nullable(ty: RemoteType) -> bool {
    ty is Nullable
}

/// The type of a column's values: for a nullable column the type inside.
pub open spec fn base_type(ty: RemoteType) -> RemoteType {
    match ty {
        RemoteType::Nullable(inner) => *inner,
        _ => ty,
    }
}

/// The present items of a list, in order.
pub open spec fn presents<T>(s: Seq<Option<T>>) -> Seq<T>
    decreases s.len(),
{
    if s.len() == 0 {
        Seq::empty()
    } else {
        match s.last() {
            Some(x) => presents(s.drop_last()).push(x),
            None => presents(s.drop_last()),
        }
    }
}

/// Two to the power 128.
pub open spec fn two_128() -> int {
    0x1_0000_0000_0000_0000_0000_0000_0000_0000int
}

/// Two to the power 255.
pub open spec fn two_255() -> int {
    0x8000_0000_0000_0000_0000_0000_0000_0000int * two_128()
}

/// Whether a text writes a 256-bit integer in decimal digits: one digit or
/// more, behind a minus sign where `signed` allows one, and a number
/// that 256 bits hold, with a sign bit where `signed` is set.
pub open spec fn is_integer_text(s: Seq<char>, signed: bool) -> bool {
    let negative = signed && s.len() > 0 && s[0] == '-';
    let start: int = if negative {
        1
    } else {
        0
    };
    let magnitude = crate::numeric::digits_value(s.subrange(start, s.len() as int));
    &&& s.len() > start
    &&& forall|i: int| start <= i < s.len() ==> crate::numeric::is_digit(#[trigger] s[i])
    &&& if !signed {
        magnitude < 2 * two_255()
    } else if negative {
        magnitude <= two_255()
    } else {
        magnitude < two_255()
    }
}

/// One digit more behind a number of two 128-bit halves: the halves of
/// ten times the number plus the digit, where 256 bits hold it.
pub(crate) fn wide_step(hi: u128, lo: u128, d: u8) -> (r: Option<(u128, u128)>)
    requires
        d < 10,
    ensures
        match r {
            Some((h, l)) => h * two_128() + l == (hi * two_128() + lo) * 10 + d,
            None => (hi * two_128() + lo) * 10 + d >= 2 * two_255(),
        },
{
    let unit: u128 = 0x1_0000_0000_0000_0000u128;
    let lo_lo: u128 = lo % unit;
    let lo_hi: u128 = lo / unit;
    let a: u128 = lo_lo * 10 + d as u128;
    let b: u128 = lo_hi * 10 + a / unit;
    let new_lo: u128 = (b % unit) * unit + a % unit;
    let carry: u128 = b / unit;
    assert(unit * unit == two_128());
    assert(carry * two_128() + new_lo == lo * 10 + d) by {
        assert(lo == lo_hi * unit + lo_lo);
        assert(b == carry * unit + b % unit);
        assert(a == (a / unit) * unit + a % unit);
        assert(carry * two_128() == carry * unit * unit) by (nonlinear_arith)
            requires
                unit * unit == two_128(),
        ;
        assert((carry * unit + b % unit) * unit == carry * unit * unit + (b % unit) * unit)
            by (nonlinear_arith);
        assert((lo_hi * 10 + a / unit) * unit == lo_hi * 10 * unit + (a / unit) * unit)
            by (nonlinear_arith);
    }
    let shifted = match hi.checked_mul(10) {
        Some(x) => x,
        None => {
            return None;
        },
    };
    match shifted.checked_add(carry) {
        Some(h) => Some((h, new_lo)),
        None => None,
    }
}

/// The remote date that a day read back by the calendar is written as:
/// the days since 1 January 1970, cut to 16 bits. A text that the
/// calendar rejects is an error.
pub open spec fn date_written(parsed: Option<int>) -> Result<RemoteValueView, FdwErrorView> {
    match parsed {
        Some(d) => Ok(RemoteValueView::Date((d - UNIX_DAY_FROM_CE) as u16)),
        None => Err(FdwErrorView::ValueParse(ParseKind::Date)),
    }
}

/// The remote instant that seconds read back by the calendar are written
/// as, cut to 32 bits: those of the text without a fraction, else those of
/// the text with one. A text that the calendar rejects both ways is an
/// error.
pub open spec fn instant_written(plain: Option<int>, fraction: Option<int>) -> Result<
    RemoteValueView,
    FdwErrorView,
> {
    match plain {
        Some(s) => Ok(RemoteValueView::DateTime(s as u32)),
        None => match fraction {
            Some(s) => Ok(RemoteValueView::DateTime(s as u32)),
            None => Err(FdwErrorView::ValueParse(ParseKind::Timestamp)),
        },
    }
}

/// Writes the day that the calendar read back as a remote date.
pub fn date_from_parsed(parsed: Option<i32>) -> (r: Result<RemoteValue, FdwError>)
    ensures
        match date_written(
            match parsed {
                Some(d) => Some(d as int),
                None => None,
            },
        ) {
            Ok(v) => r matches Ok(x) && x@ == v,
            Err(e) => r matches Err(x) && x@ == e,
        },
{
    match parsed {
        Some(d) => {
            let days: i64 = d as i64 - UNIX_DAY_FROM_CE as i64;
            Ok(RemoteValue::Date(#[verifier::truncate] (days as u16)))
        },
        None => Err(FdwError::ValueParse(ParseKind::Date)),
    }
}

/// Writes the seconds that the calendar read back as a remote instant.
pub fn instant_from_parsed(plain: Option<i64>, fraction: Option<i64>) -> (r: Result<
    RemoteValue,
    FdwError,
>)
    ensures
        match instant_written(
            match plain {
                Some(s) => Some(s as int),
                None => None,
            },
            match fraction {
                Some(s) => Some(s as int),
                None => None,
            },
        ) {
            Ok(v) => r matches Ok(x) && x@ == v,
            Err(e) => r matches Err(x) && x@ == e,
        },
{
    match plain {
        Some(s) => Ok(RemoteValue::DateTime(#[verifier::truncate] (s as u32))),
        None => match fraction {
            Some(s) => Ok(RemoteValue::DateTime(#[verifier::truncate] (s as u32))),
            None => Err(FdwError::ValueParse(ParseKind::Timestamp)),
        },
    }
}

/// The text of a date or an instant as the calendar is handed it: the
/// cell's literal without its quotes.
pub open spec fn unquoted(plain: Option<Seq<char>>) -> Option<Seq<char>> {
    match plain {
        Some(t) => Some(crate::literal::strip_quotes(crate::literal::quoted(t))),
        None => None,
    }
}

/// The remote value that a cell is written as into a column of type `ty`.
///
/// Truth values, 8-bit integers, floating-point numbers, UUIDs and the
/// present items of lists are written as they are, whatever the column.
/// Integers of 16, 32 and 64 bits go to the signed column of their width
/// or are cut to the unsigned column of half the width; a decimal is
/// brought to the scale of a decimal column; a text for a 256-bit integer
/// column must write such an integer; dates and instants go through their
/// text and the calendar. An integer or a decimal for another column, an
/// instant with a time zone and a document are errors that name the
/// column's type.
pub open spec fn write_value(c: CellView, ty: RemoteType) -> Result<RemoteValueView, FdwErrorView> {
    let unsupported = Err(FdwErrorView::UnsupportedColumnType(remote_name(ty)));
    match c {
        CellView::Bool(v) => Ok(RemoteValueView::Bool(v)),
        CellView::I8(v) => Ok(RemoteValueView::Int8(v)),
        CellView::I16(v) => match base_type(ty) {
            RemoteType::Int16 => Ok(RemoteValueView::Int16(v)),
            RemoteType::UInt8 => Ok(RemoteValueView::UInt8(v as u8)),
            _ => unsupported,
        },
        CellView::F32(v) => Ok(RemoteValueView::Float32(v)),
        CellView::I32(v) => match base_type(ty) {
            RemoteType::Int32 => Ok(RemoteValueView::Int32(v)),
            RemoteType::UInt16 => Ok(RemoteValueView::UInt16(v as u16)),
            _ => unsupported,
        },
        CellView::F64(v) => Ok(RemoteValueView::Float64(v)),
        CellView::I64(v) => match base_type(ty) {
            RemoteType::Int64 => Ok(RemoteValueView::Int64(v)),
            RemoteType::UInt32 => Ok(RemoteValueView::UInt32(v as u32)),
            _ => unsupported,
        },
        CellView::Numeric(n) => match base_type(ty) {
            RemoteType::Decimal(_, scale) => if n.wf() && scale <= crate::numeric::MAX_SCALE {
                match n.spec_rescale(scale) {
                    Some(u) => if i64::MIN <= u <= i64::MAX {
                        Ok(
                            RemoteValueView::Decimal(
                                RemoteDecimal { underlying: u as i64, scale },
                            ),
                        )
                    } else {
                        Err(FdwErrorView::ValueParse(ParseKind::Decimal))
                    },
                    None => Err(FdwErrorView::ValueParse(ParseKind::Decimal)),
                }
            } else {
                Err(FdwErrorView::ValueParse(ParseKind::Decimal))
            },
            _ => unsupported,
        },
        CellView::String(s) => match base_type(ty) {
            RemoteType::Int256 => if is_integer_text(s, true) {
                Ok(RemoteValueView::Int256(s))
            } else {
                Err(FdwErrorView::ValueParse(ParseKind::Int256))
            },
            RemoteType::UInt256 => if is_integer_text(s, false) {
                Ok(RemoteValueView::UInt256(s))
            } else {
                Err(FdwErrorView::ValueParse(ParseKind::Int256))
            },
            _ => Ok(RemoteValueView::String(s)),
        },
        CellView::Date(d) => match unquoted(d.spec_plain_text()) {
            Some(t) => date_written(crate::datetime::parsed_date(t, crate::datetime::date_format())),
            None => Err(FdwErrorView::ValueParse(ParseKind::Date)),
        },
        CellView::Timestamp(t) => match unquoted(t.spec_plain_text()) {
            Some(t) => instant_written(
                crate::datetime::parsed_instant(t, crate::datetime::instant_format()),
                crate::datetime::parsed_instant(t, crate::datetime::instant_fraction_format()),
            ),
            None => Err(FdwErrorView::ValueParse(ParseKind::Timestamp)),
        },
        CellView::Uuid(u) => Ok(RemoteValueView::Uuid(u)),
        CellView::BoolArray(v) => Ok(RemoteValueView::BoolArray(presents(v))),
        CellView::I16Array(v) => Ok(RemoteValueView::Int16Array(presents(v))),
        CellView::I32Array(v) => Ok(RemoteValueView::Int32Array(presents(v))),
        CellView::I64Array(v) => Ok(RemoteValueView::Int64Array(presents(v))),
        CellView::F32Array(v) => Ok(RemoteValueView::Float32Array(presents(v))),
        CellView::F64Array(v) => Ok(RemoteValueView::Float64Array(presents(v))),
        CellView::StringArray(v) => Ok(RemoteValueView::StringArray(presents(v))),
        _ => unsupported,
    }
}

/// The present items of a list of plain values.
pub fn present_plain<T: Copy>(v: &Vec<Option<T>>) -> (r: Vec<T>)
    ensures
        r@ == presents(v@),
{
    let mut r: Vec<T> = Vec::new();
    let mut i: usize = 0;
    while i < v.len()
        invariant
            i <= v.len(),
            r@ == presents(v@.take(i as int)),
        decreases v.len() - i,
    {
        assert(v@.take(i + 1).drop_last() == v@.take(i as int));
        match v[i] {
            Some(x) => {
                r.push(x);
            },
            None => {},
        }
        i += 1;
    }
    assert(v@.take(v.len() as int) == v@);
    r
}

/// The views of the present items are the present items of the views.
pub proof fn lemma_presents_views<T: View>(s: Seq<Option<T>>)
    ensures
        views_of(presents(s)) == presents(crate::cell::opts_view(s)),
    decreases s.len(),
{
    if s.len() > 0 {
        lemma_presents_views(s.drop_last());
        assert(crate::cell::opts_view(s).drop_last() == crate::cell::opts_view(s.drop_last()));
        assert(views_of(presents(s)) =~= presents(crate::cell::opts_view(s)));
    } else {
        assert(views_of(presents(s)) =~= presents(crate::cell::opts_view(s)));
    }
}

/// The views of a list with one item more.
pub proof fn lemma_views_push<T: View>(s: Seq<T>, x: T)
    ensures
        views_of(s.push(x)) == views_of(s).push(x@),
{
    assert(views_of(s.push(x)) =~= views_of(s).push(x@));
}

/// The present items of a list of texts.
pub fn present_texts(v: &Vec<Option<String>>) -> (r: Vec<String>)
    ensures
        views_of(r@) == presents(crate::cell::opts_view(v@)),
{
    let mut r: Vec<String> = Vec::new();
    let mut i: usize = 0;
    while i < v.len()
        invariant
            i <= v.len(),
            views_of(r@) == views_of(presents(v@.take(i as int))),
        decreases v.len() - i,
    {
        assert(v@.take(i + 1).drop_last() == v@.take(i as int));
        match &v[i] {
            Some(x) => {
                let item = x.clone();
                proof {
                    lemma_views_push(r@, item);
                    lemma_views_push(presents(v@.take(i as int)), *x);
                }
                r.push(item);
            },
            None => {},
        }
        i += 1;
    }
    assert(v@.take(v.len() as int) == v@);
    proof {
        lemma_presents_views(v@);
    }
    r
}

/// The present items of a list of 32-bit floating-point numbers.
pub fn present_reals32(v: &Vec<Option<Real32>>) -> (r: Vec<Real32>)
    ensures
        views_of(r@) == presents(crate::cell::opts_view(v@)),
{
    let mut r: Vec<Real32> = Vec::new();
    let mut i: usize = 0;
    while i < v.len()
        invariant
            i <= v.len(),
            views_of(r@) == views_of(presents(v@.take(i as int))),
        decreases v.len() - i,
    {
        assert(v@.take(i + 1).drop_last() == v@.take(i as int));
        match &v[i] {
            Some(x) => {
                let item = x.duplicate();
                proof {
                    lemma_views_push(r@, item);
                    lemma_views_push(presents(v@.take(i as int)), *x);
                }
                r.push(item);
            },
            None => {},
        }
        i += 1;
    }
    assert(v@.take(v.len() as int) == v@);
    proof {
        lemma_presents_views(v@);
    }
    r
}

/// The present items of a list of 64-bit floating-point numbers.
pub fn present_reals64(v: &Vec<Option<Real64>>) -> (r: Vec<Real64>)
    ensures
        views_of(r@) == presents(crate::cell::opts_view(v@)),
{
    let mut r: Vec<Real64> = Vec::new();
    let mut i: usize = 0;
    while i < v.len()
        invariant
            i <= v.len(),
            views_of(r@) == views_of(presents(v@.take(i as int))),
        decreases v.len() - i,
    {
        assert(v@.take(i + 1).drop_last() == v@.take(i as int));
        match &v[i] {
            Some(x) => {
                let item = x.duplicate();
                proof {
                    lemma_views_push(r@, item);
                    lemma_views_push(presents(v@.take(i as int)), *x);
                }
                r.push(item);
            },
            None => {},
        }
        i += 1;
    }
    assert(v@.take(v.len() as int) == v@);
    proof {
        lemma_presents_views(v@);
    }
    r
}

/// Whether a text writes a 256-bit integer in decimal digits.
pub fn integer_text(s: &str, signed: bool) -> (r: bool)
    ensures
        r == is_integer_text(s@, signed),
{
    let chars = crate::text::chars_of(s);
    let negative = signed && chars.len() > 0 && chars[0] == '-';
    let start: usize = if negative {
        1
    } else {
        0
    };
    if chars.len() <= start {
        return false;
    }
    let ghost digits = s@.subrange(start as int, s@.len() as int);
    let mut hi: u128 = 0;
    let mut lo: u128 = 0;
    let mut i: usize = start;
    assert(digits.take(0) == Seq::<char>::empty());
    while i < chars.len()
        invariant
            start <= i <= chars.len(),
            chars@ == s@,
            negative == (signed && s@.len() > 0 && s@[0] == '-'),
            start == (if negative {
                1int
            } else {
                0int
            }),
            digits == s@.subrange(start as int, s@.len() as int),
            forall|j: int| start <= j < i ==> crate::numeric::is_digit(#[trigger] chars[j]),
            hi * two_128() + lo == crate::numeric::digits_value(digits.take(i - start)),
        decreases chars.len() - i,
    {
        if !crate::numeric::char_is_digit(chars[i]) {
            return false;
        }
        let d = crate::numeric::char_digit_value(chars[i]);
        proof {
            let next = digits.take(i - start + 1);
            assert(next.drop_last() == digits.take(i - start));
            assert(next.last() == chars@[i as int]);
            assert(digits == next + digits.skip(i - start + 1));
            crate::numeric::lemma_digits_value_grows(next, digits.skip(i - start + 1));
        }
        match wide_step(hi, lo, d) {
            Some((h, l)) => {
                hi = h;
                lo = l;
            },
            None => {
                return false;
            },
        }
        i += 1;
    }
    assert(digits.take(digits.len() as int) == digits);
    let top: u128 = 0x8000_0000_0000_0000_0000_0000_0000_0000u128;
    if !signed {
        true
    } else if negative {
        hi < top || (hi == top && lo == 0)
    } else {
        hi < top
    }
}

/// The type of a column's values: for a nullable column the type inside.
pub fn base_of(ty: &RemoteType) -> (r: &RemoteType)
    ensures
        *r == base_type(*ty),
{
    match ty {
        RemoteType::Nullable(inner) => inner,
        _ => ty,
    }
}

/// Writes a cell as a value for a remote column of type `ty`.
pub fn cell_to_value(cell: &Cell, ty: &RemoteType) -> (r: Result<RemoteValue, FdwError>)
    ensures
        match write_value(cell@, *ty) {
            Ok(v) => r matches Ok(x) && x@ == v,
            Err(e) => r matches Err(x) && x@ == e,
        },
{
    let base = base_of(ty);
    match cell {
        Cell::Bool(v) => Ok(RemoteValue::Bool(*v)),
        Cell::I8(v) => Ok(RemoteValue::Int8(*v)),
        Cell::I16(v) => match base {
            RemoteType::Int16 => Ok(RemoteValue::Int16(*v)),
            RemoteType::UInt8 => Ok(RemoteValue::UInt8(#[verifier::truncate] (*v as u8))),
            _ => Err(ty.unsupported()),
        },
        Cell::F32(v) => Ok(RemoteValue::Float32(v.duplicate())),
        Cell::I32(v) => match base {
            RemoteType::Int32 => Ok(RemoteValue::Int32(*v)),
            RemoteType::UInt16 => Ok(RemoteValue::UInt16(#[verifier::truncate] (*v as u16))),
            _ => Err(ty.unsupported()),
        },
        Cell::F64(v) => Ok(RemoteValue::Float64(v.duplicate())),
        Cell::I64(v) => match base {
            RemoteType::Int64 => Ok(RemoteValue::Int64(*v)),
            RemoteType::UInt32 => Ok(RemoteValue::UInt32(#[verifier::truncate] (*v as u32))),
            _ => Err(ty.unsupported()),
        },
        Cell::Numeric(n) => match base {
            RemoteType::Decimal(_, scale) => {
                if !(n.scale <= crate::numeric::MAX_SCALE && (n.magnitude != 0 || !n.negative))
                    || *scale > crate::numeric::MAX_SCALE {
                    return Err(FdwError::ValueParse(ParseKind::Decimal));
                }
                match n.rescale(*scale) {
                    Some(u) => Ok(
                        RemoteValue::Decimal(RemoteDecimal { underlying: u, scale: *scale }),
                    ),
                    None => Err(FdwError::ValueParse(ParseKind::Decimal)),
                }
            },
            _ => Err(ty.unsupported()),
        },
        Cell::String(s) => match base {
            RemoteType::Int256 => if integer_text(s.as_str(), true) {
                Ok(RemoteValue::Int256(s.clone()))
            } else {
                Err(FdwError::ValueParse(ParseKind::Int256))
            },
            RemoteType::UInt256 => if integer_text(s.as_str(), false) {
                Ok(RemoteValue::UInt256(s.clone()))
            } else {
                Err(FdwError::ValueParse(ParseKind::Int256))
            },
            _ => Ok(RemoteValue::String(s.clone())),
        },
        Cell::Date(_) => {
            let literal = match cell.to_text() {
                Ok(t) => t,
                Err(_) => {
                    return Err(FdwError::ValueParse(ParseKind::Date));
                },
            };
            let plain = crate::literal::without_quotes(literal.as_str());
            date_from_parsed(crate::datetime::chrono_parse_date(plain.as_str(), "%Y-%m-%d"))
        },
        Cell::Timestamp(_) => {
            let literal = match cell.to_text() {
                Ok(t) => t,
                Err(_) => {
                    return Err(FdwError::ValueParse(ParseKind::Timestamp));
                },
            };
            let plain = crate::literal::without_quotes(literal.as_str());
            let whole = crate::datetime::chrono_parse_instant(plain.as_str(), "%Y-%m-%d %H:%M:%S");
            let fraction = match whole {
                Some(_) => None,
                None => crate::datetime::chrono_parse_instant(
                    plain.as_str(),
                    "%Y-%m-%d %H:%M:%S%.6f",
                ),
            };
            instant_from_parsed(whole, fraction)
        },
        Cell::Uuid(u) => Ok(RemoteValue::Uuid(*u)),
        Cell::BoolArray(v) => Ok(RemoteValue::BoolArray(present_plain(v))),
        Cell::I16Array(v) => Ok(RemoteValue::Int16Array(present_plain(v))),
        Cell::I32Array(v) => Ok(RemoteValue::Int32Array(present_plain(v))),
        Cell::I64Array(v) => Ok(RemoteValue::Int64Array(present_plain(v))),
        Cell::F32Array(v) => Ok(RemoteValue::Float32Array(present_reals32(v))),
        Cell::F64Array(v) => Ok(RemoteValue::Float64Array(present_reals64(v))),
        Cell::StringArray(v) => Ok(RemoteValue::StringArray(present_texts(v))),
        _ => Err(ty.unsupported()),
    }
}

/// Writes a cell as a field for a remote column of type `ty`: the value,
/// and the mark of a nullable column.
pub fn cell_to_remote(cell: &Cell, ty: &RemoteType) -> (r: Result<RemoteField, FdwError>)
    ensures
        match write_value(cell@, *ty) {
            Ok(v) => r matches Ok(f) && f.value@ == v && f.nullable == is_nullable(*ty),
            Err(e) => r matches Err(x) && x@ == e,
        },
{
    let nullable = match ty {
        RemoteType::Nullable(_) => true,
        _ => false,
    };
    match cell_to_value(cell, ty) {
        Ok(value) => Ok(RemoteField { value, nullable }),
        Err(e) => Err(e),
    }
}

/// The scalar types whose values come back unchanged when they are read
/// as a cell and the cell is written to a column of the same type.
pub open spec fn writes_back(ty: RemoteType) -> bool {
    match ty {
        RemoteType::Bool => true,
        RemoteType::Int8 => true,
        RemoteType::UInt8 => true,
        RemoteType::Int16 => true,
        RemoteType::UInt16 => true,
        RemoteType::Int32 => true,
        RemoteType::UInt32 => true,
        RemoteType::Int64 => true,
        RemoteType::Float32 => true,
        RemoteType::Float64 => true,
        RemoteType::String => true,
        RemoteType::FixedString(_) => true,
        RemoteType::Uuid => true,
        _ => false,
    }
}

/// Reading a value of a scalar column as a cell and writing the cell to a
/// column of the same type gives the value again: for truth values, the
/// integers up to 64 bits but the unsigned 64-bit ones, floating-point
/// numbers, texts and UUIDs.
pub proof fn law_read_then_write(ty: RemoteType, v: RemoteValueView)
    requires
        writes_back(ty),
        read_scalar(ty, v) is Ok,
    ensures
        write_value(read_scalar(ty, v)->Ok_0, ty) == Ok::<RemoteValueView, FdwErrorView>(v),
{
    match v {
        RemoteValueView::UInt8(x) => {
            assert((x as i16) as u8 == x) by (bit_vector);
        },
        RemoteValueView::UInt16(x) => {
            assert((x as i32) as u16 == x) by (bit_vector);
        },
        RemoteValueView::UInt32(x) => {
            assert((x as i64) as u32 == x) by (bit_vector);
        },
        _ => {},
    }
}

/// The same holds of a nullable column: what is read from it and written
/// to it again is unchanged, the null included.
pub proof fn law_read_then_write_nullable(ty: RemoteType, v: RemoteValueView)
    requires
        writes_back(ty),
        read_field(RemoteType::Nullable(Box::new(ty)), Some(v)) is Ok,
    ensures
        read_field(RemoteType::Nullable(Box::new(ty)), None) == Ok::<
            Option<CellView>,
            FdwErrorView,
        >(None),
        write_value(
            read_field(RemoteType::Nullable(Box::new(ty)), Some(v))->Ok_0->Some_0,
            RemoteType::Nullable(Box::new(ty)),
        ) == Ok::<RemoteValueView, FdwErrorView>(v),
{
    law_read_then_write(ty, v);
}

/// A decimal that is read as a cell and written to a decimal column of its
/// own scale is unchanged.
pub proof fn law_decimal_read_then_write(precision: u8, d: RemoteDecimal)
    requires
        d.scale <= crate::numeric::MAX_SCALE,
    ensures
        write_value(
            read_scalar(
                RemoteType::Decimal(precision, d.scale),
                RemoteValueView::Decimal(d),
            )->Ok_0,
            RemoteType::Decimal(precision, d.scale),
        ) == Ok::<RemoteValueView, FdwErrorView>(RemoteValueView::Decimal(d)),
{
    let n = Numeric::spec_from_int(d.underlying as int, d.scale);
    assert(n.unscaled() == d.underlying);
    assert((d.scale - d.scale) as nat == 0);
    assert(crate::numeric::pow10((d.scale - d.scale) as nat) == 1);
    assert(n.unscaled() * crate::numeric::pow10((d.scale - d.scale) as nat) == d.underlying);
    assert(n.spec_rescale(d.scale) == Some(d.underlying as int));
}

/// The decimal text of a 256-bit integer that is read as a cell and
/// written to a column of its type is unchanged, where the text writes
/// such an integer.
pub proof fn law_wide_integer_read_then_write(text: Seq<char>, signed: bool)
    requires
        is_integer_text(text, signed),
    ensures
        signed ==> write_value(
            read_scalar(RemoteType::Int256, RemoteValueView::Int256(text))->Ok_0,
            RemoteType::Int256,
        ) == Ok::<RemoteValueView, FdwErrorView>(RemoteValueView::Int256(text)),
        !signed ==> write_value(
            read_scalar(RemoteType::UInt256, RemoteValueView::UInt256(text))->Ok_0,
            RemoteType::UInt256,
        ) == Ok::<RemoteValueView, FdwErrorView>(RemoteValueView::UInt256(text)),
{
}

/// A date that is read as a cell and written to a date column is
/// unchanged, where the calendar reads the day back from the text that it
/// wrote for it.
pub proof fn law_date_read_then_write(days: u16)
    requires
        ({
            let cell = Date { days: (days - EPOCH_OFFSET_DAYS) as i32 };
            &&& cell.spec_plain_text() is Some
            &&& crate::datetime::parsed_date(
                unquoted(cell.spec_plain_text())->0,
                crate::datetime::date_format(),
            ) == Some(days + UNIX_DAY_FROM_CE)
        }),
    ensures
        write_value(
            read_scalar(RemoteType::Date, RemoteValueView::Date(days))->Ok_0,
            RemoteType::Date,
        ) == Ok::<RemoteValueView, FdwErrorView>(RemoteValueView::Date(days)),
{
}

/// An instant that is read as a cell and written to a column of instants
/// is unchanged, where the calendar reads the seconds back from the text
/// that it wrote for them.
pub proof fn law_instant_read_then_write(secs: u32)
    requires
        ({
            let cell = Timestamp { micros: ((secs - PG_EPOCH_SEC) * MICROS_PER_SEC) as i64 };
            &&& cell.spec_plain_text() is Some
            &&& crate::datetime::parsed_instant(
                unquoted(cell.spec_plain_text())->0,
                crate::datetime::instant_format(),
            ) == Some(secs as int)
        }),
    ensures
        write_value(
            read_scalar(RemoteType::DateTime, RemoteValueView::DateTime(secs))->Ok_0,
            RemoteType::DateTime,
        ) == Ok::<RemoteValueView, FdwErrorView>(RemoteValueView::DateTime(secs)),
{
}

/// A 16-bit cell written to an unsigned 8-bit column and read back is the
/// unsigned reading of its low 8 bits: the cell itself from 0 to 255.
pub proof fn law_narrow_then_widen_8(v: i16)
    ensures
        write_value(CellView::I16(v), RemoteType::UInt8) == Ok::<RemoteValueView, FdwErrorView>(
            RemoteValueView::UInt8(v as u8),
        ),
        read_scalar(RemoteType::UInt8, RemoteValueView::UInt8(v as u8)) == Ok::<
            CellView,
            FdwErrorView,
        >(CellView::I16((v as u8) as i16)),
        0 <= v <= 255 ==> (v as u8) as i16 == v,
        0 <= (v as u8) as i16 <= 255,
{
    assert(0 <= v <= 255 ==> (v as u8) as i16 == v) by (bit_vector);
}

/// A 32-bit cell written to an unsigned 16-bit column and read back is the
/// unsigned reading of its low 16 bits: the cell itself from 0 to 65535.
pub proof fn law_narrow_then_widen_16(v: i32)
    ensures
        write_value(CellView::I32(v), RemoteType::UInt16) == Ok::<RemoteValueView, FdwErrorView>(
            RemoteValueView::UInt16(v as u16),
        ),
        read_scalar(RemoteType::UInt16, RemoteValueView::UInt16(v as u16)) == Ok::<
            CellView,
            FdwErrorView,
        >(CellView::I32((v as u16) as i32)),
        0 <= v <= 65535 ==> (v as u16) as i32 == v,
        0 <= (v as u16) as i32 <= 65535,
{
    assert(0 <= v <= 65535 ==> (v as u16) as i32 == v) by (bit_vector);
}

/// A 64-bit cell written to an unsigned 32-bit column and read back is the
/// unsigned reading of its low 32 bits: the cell itself from 0 to
/// 4294967295.
pub proof fn law_narrow_then_widen_32(v: i64)
    ensures
        write_value(CellView::I64(v), RemoteType::UInt32) == Ok::<RemoteValueView, FdwErrorView>(
            RemoteValueView::UInt32(v as u32),
        ),
        read_scalar(RemoteType::UInt32, RemoteValueView::UInt32(v as u32)) == Ok::<
            CellView,
            FdwErrorView,
        >(CellView::I64((v as u32) as i64)),
        0 <= v <= 4294967295 ==> (v as u32) as i64 == v,
        0 <= (v as u32) as i64 <= 4294967295,
{
    assert(0 <= v <= 4294967295 ==> (v as u32) as i64 == v) by (bit_vector);
}

} // verus!

//! The canonical value model: cells, values, rows and the descriptors of a
//! query's shape, each with its mathematical view.

use crate::datetime::{Date, Timestamp};
use crate::numeric::Numeric;
use vstd::prelude::*;

verus! {

/// A 32-bit binary floating-point number, held as its bit pattern together
/// with the decimal text that writes it.
#[derive(Debug, Clone, PartialEq)]
pub struct Real32 {
    pub bits: u32,
    pub text: String,
}

/// A 64-bit binary floating-point number, held as its bit pattern together
/// with the decimal text that writes it.
#[derive(Debug, Clone, PartialEq)]
pub struct Real64 {
    pub bits: u64,
    pub text: String,
}

/// The content of a [`Real32`].
pub struct Real32View {
    pub bits: u32,
    pub text: Seq<char>,
}

/// The content of a [`Real64`].
pub struct Real64View {
    pub bits: u64,
    pub text: Seq<char>,
}

impl View for Real32 {
    type V = Real32View;

    open spec fn view(&self) -> Real32View {
        Real32View { bits: self.bits, text: self.text@ }
    }
}

impl View for Real64 {
    type V = Real64View;

    open spec fn view(&self) -> Real64View {
        Real64View { bits: self.bits, text: self.text@ }
    }
}

/// One column value of one row. A cell is never the SQL null: a row holds
/// an absent value as `None`.
#[derive(Debug, Clone, PartialEq)]
pub enum Cell {
    Bool(bool),
    I8(i8),
    I16(i16),
    F32(Real32),
    I32(i32),
    F64(Real64),
    I64(i64),
    Numeric(Numeric),
    String(String),
    Date(Date),
    Timestamp(Timestamp),
    Timestamptz(Timestamp),
    /// A JSON document as its serialized text.
    Json(String),
    /// A UUID as the 128-bit number that its sixteen bytes write, the
    /// first byte being the most significant.
    Uuid(u128),
    BoolArray(Vec<Option<bool>>),
    I16Array(Vec<Option<i16>>),
    I32Array(Vec<Option<i32>>),
    I64Array(Vec<Option<i64>>),
    F32Array(Vec<Option<Real32>>),
    F64Array(Vec<Option<Real64>>),
    StringArray(Vec<Option<String>>),
}

/// The content of a [`Cell`].
pub enum CellView {
    Bool(bool),
    I8(i8),
    I16(i16),
    F32(Real32View),
    I32(i32),
    F64(Real64View),
    I64(i64),
    Numeric(Numeric),
    String(Seq<char>),
    Date(Date),
    Timestamp(Timestamp),
    Timestamptz(Timestamp),
    Json(Seq<char>),
    Uuid(u128),
    BoolArray(Seq<Option<bool>>),
    I16Array(Seq<Option<i16>>),
    I32Array(Seq<Option<i32>>),
    I64Array(Seq<Option<i64>>),
    F32Array(Seq<Option<Real32View>>),
    F64Array(Seq<Option<Real64View>>),
    StringArray(Seq<Option<Seq<char>>>),
}

/// The view of an optional value.
pub open spec fn opt_view<T: View>(o: Option<T>) -> Option<T::V> {
    match o {
        Some(x) => Some(x@),
        None => None,
    }
}

/// The views of a row of optional values.
pub open spec fn opts_view<T: View>(s: Seq<Option<T>>) -> Seq<Option<T::V>> {
    Seq::new(s.len(), |i: int| opt_view(s[i]))
}

impl View for Cell {
    type V = CellView;

    open spec fn view(&self) -> CellView {
        match self {
            Cell::Bool(v) => CellView::Bool(*v),
            Cell::I8(v) => CellView::I8(*v),
            Cell::I16(v) => CellView::I16(*v),
            Cell::F32(v) => CellView::F32(v@),
            Cell::I32(v) => CellView::I32(*v),
            Cell::F64(v) => CellView::F64(v@),
            Cell::I64(v) => CellView::I64(*v),
            Cell::Numeric(v) => CellView::Numeric(*v),
            Cell::String(v) => CellView::String(v@),
            Cell::Date(v) => CellView::Date(*v),
            Cell::Timestamp(v) => CellView::Timestamp(*v),
            Cell::Timestamptz(v) => CellView::Timestamptz(*v),
            Cell::Json(v) => CellView::Json(v@),
            Cell::Uuid(v) => CellView::Uuid(*v),
            Cell::BoolArray(v) => CellView::BoolArray(v@),
            Cell::I16Array(v) => CellView::I16Array(v@),
            Cell::I32Array(v) => CellView::I32Array(v@),
            Cell::I64Array(v) => CellView::I64Array(v@),
            Cell::F32Array(v) => CellView::F32Array(opts_view(v@)),
            Cell::F64Array(v) => CellView::F64Array(opts_view(v@)),
            Cell::StringArray(v) => CellView::StringArray(opts_view(v@)),
        }
    }
}

/// The operand of a predicate: one cell, or a list of cells.
#[derive(Debug, Clone, PartialEq)]
pub enum Value {
    Cell(Cell),
    Array(Vec<Cell>),
}

/// The content of a [`Value`].
pub enum ValueView {
    Cell(CellView),
    Array(Seq<CellView>),
}

/// The views of a row of cells.
pub open spec fn cells_view(s: Seq<Cell>) -> Seq<CellView> {
    Seq::new(s.len(), |i: int| s[i]@)
}

impl View for Value {
    type V = ValueView;

    open spec fn view(&self) -> ValueView {
        match self {
            Value::Cell(c) => ValueView::Cell(c@),
            Value::Array(a) => ValueView::Array(cells_view(a@)),
        }
    }
}

/// A column that a query asks for: its name and the engine's identifier of
/// its declared type.
#[derive(Debug, Clone, PartialEq)]
pub struct Column {
    pub name: String,
    pub type_oid: u32,
}

/// One predicate that the engine hands down: `field operator value`.
#[derive(Debug, Clone, PartialEq)]
pub struct Qual {
    pub field: String,
    pub operator: String,
    pub value: Value,
}

/// The content of a [`Qual`].
pub struct QualView {
    pub field: Seq<char>,
    pub operator: Seq<char>,
    pub value: ValueView,
}

impl View for Qual {
    type V = QualView;

    open spec fn view(&self) -> QualView {
        QualView { field: self.field@, operator: self.operator@, value: self.value@ }
    }
}

/// One key of the ordering that the engine hands down.
#[derive(Debug, Clone, PartialEq)]
pub struct Sort {
    pub field: String,
    pub ascending: bool,
    pub nulls_first: bool,
}

/// The bound that the engine hands down: skip `offset` rows, then take
/// `count`.
#[derive(Debug, Clone, Copy, PartialEq, Eq, Structural)]
pub struct Limit {
    pub count: i64,
    pub offset: i64,
}

/// A positional parameter of a templated table definition.
#[derive(Debug, Clone, Copy, PartialEq, Eq, Structural)]
pub struct Param {
    pub id: usize,
    pub type_oid: u32,
}

/// A row: column names with their optional cells, in the order in which
/// the engine asked for the columns.
#[derive(Debug, Clone, PartialEq)]
pub struct Row {
    pub entries: Vec<(String, Option<Cell>)>,
}

/// The names of a row of strings.
pub open spec fn names_view(s: Seq<String>) -> Seq<Seq<char>> {
    Seq::new(s.len(), |i: int| s[i]@)
}

impl Row {
    /// The names of the row's columns.
    pub open spec fn names(&self) -> Seq<Seq<char>> {
        Seq::new(self.entries@.len(), |i: int| self.entries@[i].0@)
    }

    /// The row's cells.
    pub open spec fn cells(&self) -> Seq<Option<Cell>> {
        Seq::new(self.entries@.len(), |i: int| self.entries@[i].1)
    }

    /// The content of the row's cells.
    pub open spec fn values(&self) -> Seq<Option<CellView>> {
        opts_view(self.cells())
    }

    /// The empty row.
    pub fn new() -> (row: Row)
        ensures
            row.names() == Seq::<Seq<char>>::empty(),
            row.cells() == Seq::<Option<Cell>>::empty(),
    {
        let row = Row { entries: Vec::new() };
        assert(row.names() =~= Seq::<Seq<char>>::empty());
        assert(row.cells() =~= Seq::<Option<Cell>>::empty());
        row
    }

    /// Appends a column with its value.
    pub fn push(&mut self, col: &str, cell: Option<Cell>)
        ensures
            final(self).names() == old(self).names().push(col@),
            final(self).cells() == old(self).cells().push(cell),
    {
        self.entries.push((col.to_owned(), cell));
        assert(self.names() =~= old(self).names().push(col@));
        assert(self.cells() =~= old(self).cells().push(cell));
    }

    /// The number of columns in the row.
    pub fn len(&self) -> (n: usize)
        ensures
            n == self.names().len(),
            n == self.cells().len(),
    {
        self.entries.len()
    }

    /// The name of the column at place `i`.
    pub fn name(&self, i: usize) -> (r: &String)
        requires
            i < self.names().len(),
        ensures
            r@ == self.names()[i as int],
    {
        &self.entries[i].0
    }

    /// The cell at place `i`.
    pub fn cell(&self, i: usize) -> (r: &Option<Cell>)
        requires
            i < self.cells().len(),
        ensures
            *r == self.cells()[i as int],
    {
        &self.entries[i].1
    }
}

/// The views of a row with one value more.
pub proof fn lemma_opts_view_push<T: View>(s: Seq<Option<T>>, x: Option<T>)
    ensures
        opts_view(s.push(x)) == opts_view(s).push(opt_view(x)),
{
    assert(opts_view(s.push(x)) =~= opts_view(s).push(opt_view(x)));
}

/// A copy of a list of optional plain values.
pub fn copy_plain<T: Copy>(v: &Vec<Option<T>>) -> (r: Vec<Option<T>>)
    ensures
        r@ == v@,
{
    let mut r: Vec<Option<T>> = Vec::new();
    let mut i: usize = 0;
    while i < v.len()
        invariant
            i <= v.len(),
            r@ == v@.take(i as int),
        decreases v.len() - i,
    {
        r.push(v[i]);
        i += 1;
        assert(v@.take(i as int) == v@.take(i - 1).push(v@[i - 1]));
    }
    assert(v@.take(v.len() as int) == v@);
    r
}

/// A copy of a list of optional texts.
pub fn copy_texts(v: &Vec<Option<String>>) -> (r: Vec<Option<String>>)
    ensures
        opts_view(r@) == opts_view(v@),
{
    let mut r: Vec<Option<String>> = Vec::new();
    let mut i: usize = 0;
    while i < v.len()
        invariant
            i <= v.len(),
            opts_view(r@) == opts_view(v@.take(i as int)),
        decreases v.len() - i,
    {
        let item = match &v[i] {
            Some(s) => Some(s.clone()),
            None => None,
        };
        proof {
            lemma_opts_view_push(r@, item);
            lemma_opts_view_push(v@.take(i as int), v@[i as int]);
            assert(v@.take(i + 1) == v@.take(i as int).push(v@[i as int]));
        }
        r.push(item);
        i += 1;
    }
    assert(v@.take(v.len() as int) == v@);
    r
}

impl Real32 {
    /// A copy of the number.
    pub fn duplicate(&self) -> (r: Real32)
        ensures
            r@ == self@,
    {
        Real32 { bits: self.bits, text: self.text.clone() }
    }
}

impl Real64 {
    /// A copy of the number.
    pub fn duplicate(&self) -> (r: Real64)
        ensures
            r@ == self@,
    {
        Real64 { bits: self.bits, text: self.text.clone() }
    }
}

/// A copy of a list of optional 32-bit floating-point numbers.
pub fn copy_reals32(v: &Vec<Option<Real32>>) -> (r: Vec<Option<Real32>>)
    ensures
        opts_view(r@) == opts_view(v@),
{
    let mut r: Vec<Option<Real32>> = Vec::new();
    let mut i: usize = 0;
    while i < v.len()
        invariant
            i <= v.len(),
            opts_view(r@) == opts_view(v@.take(i as int)),
        decreases v.len() - i,
    {
        let item = match &v[i] {
            Some(s) => Some(s.duplicate()),
            None => None,
        };
        proof {
            lemma_opts_view_push(r@, item);
            lemma_opts_view_push(v@.take(i as int), v@[i as int]);
            assert(v@.take(i + 1) == v@.take(i as int).push(v@[i as int]));
        }
        r.push(item);
        i += 1;
    }
    assert(v@.take(v.len() as int) == v@);
    r
}

/// A copy of a list of optional 64-bit floating-point numbers.
pub fn copy_reals64(v: &Vec<Option<Real64>>) -> (r: Vec<Option<Real64>>)
    ensures
        opts_view(r@) == opts_view(v@),
{
    let mut r: Vec<Option<Real64>> = Vec::new();
    let mut i: usize = 0;
    while i < v.len()
        invariant
            i <= v.len(),
            opts_view(r@) == opts_view(v@.take(i as int)),
        decreases v.len() - i,
    {
        let item = match &v[i] {
            Some(s) => Some(s.duplicate()),
            None => None,
        };
        proof {
            lemma_opts_view_push(r@, item);
            lemma_opts_view_push(v@.take(i as int), v@[i as int]);
            assert(v@.take(i + 1) == v@.take(i as int).push(v@[i as int]));
        }
        r.push(item);
        i += 1;
    }
    assert(v@.take(v.len() as int) == v@);
    r
}

impl Cell {
    /// A copy of the cell.
    pub fn duplicate(&self) -> (c: Cell)
        ensures
            c@ == self@,
    {
        match self {
            Cell::Bool(v) => Cell::Bool(*v),
            Cell::I8(v) => Cell::I8(*v),
            Cell::I16(v) => Cell::I16(*v),
            Cell::F32(v) => Cell::F32(v.duplicate()),
            Cell::I32(v) => Cell::I32(*v),
            Cell::F64(v) => Cell::F64(v.duplicate()),
            Cell::I64(v) => Cell::I64(*v),
            Cell::Numeric(v) => Cell::Numeric(*v),
            Cell::String(v) => Cell::String(v.clone()),
            Cell::Date(v) => Cell::Date(*v),
            Cell::Timestamp(v) => Cell::Timestamp(*v),
            Cell::Timestamptz(v) => Cell::Timestamptz(*v),
            Cell::Json(v) => Cell::Json(v.clone()),
            Cell::Uuid(v) => Cell::Uuid(*v),
            Cell::BoolArray(v) => Cell::BoolArray(copy_plain(v)),
            Cell::I16Array(v) => Cell::I16Array(copy_plain(v)),
            Cell::I32Array(v) => Cell::I32Array(copy_plain(v)),
            Cell::I64Array(v) => Cell::I64Array(copy_plain(v)),
            Cell::F32Array(v) => Cell::F32Array(copy_reals32(v)),
            Cell::F64Array(v) => Cell::F64Array(copy_reals64(v)),
            Cell::StringArray(v) => Cell::StringArray(copy_texts(v)),
        }
    }
}

} // verus!

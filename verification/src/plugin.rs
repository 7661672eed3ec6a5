//! The bridge to sandboxed plugins, second version of the interface: the
//! shapes that cross the boundary and the conversions on both sides of it.

use crate::cell::{Cell, CellView, Param, Real32, Real32View, Real64, Real64View, Value};
use crate::datetime::{Date, Timestamp, PG_EPOCH_MS, PG_EPOCH_SEC};
use crate::error::{FdwError, FdwErrorView, ParseKind};
use crate::import_schema::{ImportForeignSchemaStmt, ImportSchemaType};
use crate::literal::{push_uuid, uuid_text};
use crate::numeric::{spec_parse, Numeric};
use crate::text::string_of;
use vstd::prelude::*;

verus! {

/// Seconds in a day.
pub const SECS_PER_DAY: i64 = 86_400;

/// A cell as a plugin sees it. Dates are seconds and instants microseconds
/// since the Unix epoch; decimals, documents and UUIDs are texts.
#[derive(Debug, Clone, PartialEq)]
pub enum GuestCell {
    Bool(bool),
    I8(i8),
    I16(i16),
    F32(Real32),
    I32(i32),
    F64(Real64),
    I64(i64),
    Numeric(String),
    String(String),
    Date(i64),
    Timestamp(i64),
    Timestamptz(i64),
    Json(String),
    Uuid(String),
    /// A kind of cell that the bridge does not carry.
    Other(String),
}

/// The content of a [`GuestCell`].
pub enum GuestCellView {
    Bool(bool),
    I8(i8),
    I16(i16),
    F32(Real32View),
    I32(i32),
    F64(Real64View),
    I64(i64),
    Numeric(Seq<char>),
    String(Seq<char>),
    Date(i64),
    Timestamp(i64),
    Timestamptz(i64),
    Json(Seq<char>),
    Uuid(Seq<char>),
    Other(Seq<char>),
}

impl View for GuestCell {
    type V = GuestCellView;

    open spec fn view(&self) -> GuestCellView {
        match self {
            GuestCell::Bool(v) => GuestCellView::Bool(*v),
            GuestCell::I8(v) => GuestCellView::I8(*v),
            GuestCell::I16(v) => GuestCellView::I16(*v),
            GuestCell::F32(v) => GuestCellView::F32(v@),
            GuestCell::I32(v) => GuestCellView::I32(*v),
            GuestCell::F64(v) => GuestCellView::F64(v@),
            GuestCell::I64(v) => GuestCellView::I64(*v),
            GuestCell::Numeric(v) => GuestCellView::Numeric(v@),
            GuestCell::String(v) => GuestCellView::String(v@),
            GuestCell::Date(v) => GuestCellView::Date(*v),
            GuestCell::Timestamp(v) => GuestCellView::Timestamp(*v),
            GuestCell::Timestamptz(v) => GuestCellView::Timestamptz(*v),
            GuestCell::Json(v) => GuestCellView::Json(v@),
            GuestCell::Uuid(v) => GuestCellView::Uuid(v@),
            GuestCell::Other(v) => GuestCellView::Other(v@),
        }
    }
}

/// The operand of a predicate as a plugin sees it.
#[derive(Debug, Clone, PartialEq)]
pub enum GuestValue {
    Cell(GuestCell),
    Array(Vec<GuestCell>),
}

/// A positional parameter as a plugin sees it.
#[derive(Debug, Clone, Copy, PartialEq, Eq, Structural)]
pub struct GuestParam {
    pub id: u32,
    pub type_oid: u32,
}

/// The counters that a plugin reports.
#[derive(Debug, Clone, Copy, PartialEq, Eq, Structural)]
pub enum GuestMetric {
    CreateTimes,
    RowsIn,
    RowsOut,
    BytesIn,
    BytesOut,
}

/// The counters that the host keeps.
#[derive(Debug, Clone, Copy, PartialEq, Eq, Structural)]
pub enum HostMetric {
    CreateTimes,
    RowsIn,
    RowsOut,
    BytesIn,
    BytesOut,
}

/// The inclusion mode of a schema import as a plugin sees it.
#[derive(Debug, Clone, Copy, PartialEq, Eq, Structural)]
pub enum GuestImportSchemaType {
    All,
    LimitTo,
    Except,
}

/// A schema-import request as a plugin sees it.
#[derive(Debug, Clone, PartialEq)]
pub struct GuestImportForeignSchemaStmt {
    pub server_name: String,
    pub remote_schema: String,
    pub local_schema: String,
    pub list_type: GuestImportSchemaType,
    pub table_list: Vec<String>,
}

/// The 128-bit number of the UUID that `uuid` reads in a text; `None`
/// where it rejects the text.
pub uninterp spec fn uuid_parsed(text: Seq<char>) -> Option<u128>;

/// The text that `serde_json` writes for the document that it reads in a
/// text; `None` where it rejects the text.
pub uninterp spec fn json_normal_form(text: Seq<char>) -> Option<Seq<char>>;

/// Reads a UUID from its text.
///
/// Calls `uuid::Uuid::try_parse` and hands out `Uuid::as_u128`, the number
/// that the sixteen bytes write, the first byte being the most
/// significant. The contract only names the outcome.
#[verifier::external_body]
pub(crate) fn uuid_try_parse(text: &str) -> (r: Option<u128>)
    ensures
        r == uuid_parsed(text@),
{
    let id = uuid::Uuid::try_parse(text).ok()?;
    Some(id.as_u128())
}

/// Reads a JSON document and writes it again.
///
/// Calls `serde_json::from_str` for a `serde_json::Value` and hands out
/// the text that `Value`'s `Display` writes for it. The contract only
/// names the outcome.
#[verifier::external_body]
pub(crate) fn json_reserialize(text: &str) -> (r: Option<String>)
    ensures
        match r {
            Some(s) => json_normal_form(text@) == Some(s@),
            None => json_normal_form(text@) is None,
        },
{
    let doc: serde_json::Value = serde_json::from_str(text).ok()?;
    Some(doc.to_string())
}

/// The cell that a plugin's cell is on the host's side, given what the
/// UUID and JSON readers made of its text.
///
/// Dates fall on the day of their instant; instants move from the Unix
/// epoch to the canonical one by subtracting the offset between the two
/// and must be instants that the engine counts as valid; decimals are read
/// from their text. A cell of a kind that the bridge does not carry is a
/// fault of the plugin.
pub open spec fn host_cell(g: GuestCellView, uuid: Option<u128>, json: Option<Seq<char>>) -> Result<
    CellView,
    FdwErrorView,
> {
    match g {
        GuestCellView::Bool(v) => Ok(CellView::Bool(v)),
        GuestCellView::I8(v) => Ok(CellView::I8(v)),
        GuestCellView::I16(v) => Ok(CellView::I16(v)),
        GuestCellView::F32(v) => Ok(CellView::F32(v)),
        GuestCellView::I32(v) => Ok(CellView::I32(v)),
        GuestCellView::F64(v) => Ok(CellView::F64(v)),
        GuestCellView::I64(v) => Ok(CellView::I64(v)),
        GuestCellView::Numeric(t) => match spec_parse(t) {
            Some(n) => Ok(CellView::Numeric(n)),
            None => Err(FdwErrorView::ValueParse(ParseKind::Decimal)),
        },
        GuestCellView::String(t) => Ok(CellView::String(t)),
        GuestCellView::Date(v) => {
            let days = (v - PG_EPOCH_SEC) / (SECS_PER_DAY as int);
            if i32::MIN <= days <= i32::MAX {
                Ok(CellView::Date(Date { days: days as i32 }))
            } else {
                Err(FdwErrorView::ValueParse(ParseKind::Date))
            }
        },
        GuestCellView::Timestamp(v) => match host_instant(v) {
            Some(t) => Ok(CellView::Timestamp(t)),
            None => Err(FdwErrorView::ValueParse(ParseKind::Timestamp)),
        },
        GuestCellView::Timestamptz(v) => match host_instant(v) {
            Some(t) => Ok(CellView::Timestamptz(t)),
            None => Err(FdwErrorView::ValueParse(ParseKind::Timestamp)),
        },
        GuestCellView::Json(_) => match json {
            Some(t) => Ok(CellView::Json(t)),
            None => Err(FdwErrorView::ValueParse(ParseKind::Json)),
        },
        GuestCellView::Uuid(_) => match uuid {
            Some(u) => Ok(CellView::Uuid(u)),
            None => Err(FdwErrorView::ValueParse(ParseKind::Uuid)),
        },
        GuestCellView::Other(_) => Err(FdwErrorView::PluginFault),
    }
}

/// The canonical instant of microseconds counted from the Unix epoch;
/// `None` where 64 bits do not hold the count from the canonical epoch or
/// the engine does not count the instant as valid.
pub open spec fn host_instant(unix_micros: i64) -> Option<Timestamp> {
    let micros = unix_micros - PG_EPOCH_MS;
    if micros < i64::MIN {
        None
    } else if (Timestamp { micros: micros as i64 }).spec_is_valid() {
        Some(Timestamp { micros: micros as i64 })
    } else {
        None
    }
}

/// The microseconds from the Unix epoch of a canonical instant; `None`
/// where 64 bits do not hold them.
pub open spec fn guest_instant(t: Timestamp) -> Option<i64> {
    if t.micros + PG_EPOCH_MS <= i64::MAX {
        Some((t.micros + PG_EPOCH_MS) as i64)
    } else {
        None
    }
}

/// The cell that a host's cell is on the plugin's side.
///
/// Dates become the seconds and instants the microseconds since the Unix
/// epoch, by adding the offset between the two epochs; decimals and UUIDs
/// become their texts. Lists are not carried: a fault of the plugin
/// boundary.
pub open spec fn guest_cell(c: CellView) -> Result<GuestCellView, FdwErrorView> {
    match c {
        CellView::Bool(v) => Ok(GuestCellView::Bool(v)),
        CellView::I8(v) => Ok(GuestCellView::I8(v)),
        CellView::I16(v) => Ok(GuestCellView::I16(v)),
        CellView::F32(v) => Ok(GuestCellView::F32(v)),
        CellView::I32(v) => Ok(GuestCellView::I32(v)),
        CellView::F64(v) => Ok(GuestCellView::F64(v)),
        CellView::I64(v) => Ok(GuestCellView::I64(v)),
        CellView::Numeric(n) => if n.wf() {
            Ok(GuestCellView::Numeric(n.spec_text()))
        } else {
            Err(FdwErrorView::ValueParse(ParseKind::Decimal))
        },
        CellView::String(t) => Ok(GuestCellView::String(t)),
        CellView::Date(d) => Ok(
            GuestCellView::Date((d.days * (SECS_PER_DAY as int) + PG_EPOCH_SEC) as i64),
        ),
        CellView::Timestamp(t) => match guest_instant(t) {
            Some(v) => Ok(GuestCellView::Timestamp(v)),
            None => Err(FdwErrorView::ValueParse(ParseKind::Timestamp)),
        },
        CellView::Timestamptz(t) => match guest_instant(t) {
            Some(v) => Ok(GuestCellView::Timestamptz(v)),
            None => Err(FdwErrorView::ValueParse(ParseKind::Timestamp)),
        },
        CellView::Json(t) => Ok(GuestCellView::Json(t)),
        CellView::Uuid(u) => Ok(GuestCellView::Uuid(uuid_text(u))),
        _ => Err(FdwErrorView::PluginFault),
    }
}

/// The canonical instant of microseconds counted from the Unix epoch.
pub fn instant_from_guest(unix_micros: i64) -> (r: Option<Timestamp>)
    ensures
        r == host_instant(unix_micros),
{
    if unix_micros < i64::MIN + PG_EPOCH_MS {
        return None;
    }
    let t = Timestamp { micros: unix_micros - PG_EPOCH_MS };
    if t.is_valid() {
        Some(t)
    } else {
        None
    }
}

/// The microseconds from the Unix epoch of a canonical instant.
pub fn instant_to_guest(t: Timestamp) -> (r: Option<i64>)
    ensures
        r == guest_instant(t),
{
    if t.micros > i64::MAX - PG_EPOCH_MS {
        None
    } else {
        Some(t.micros + PG_EPOCH_MS)
    }
}

/// Converts a plugin's cell to the host's, given what the UUID and JSON
/// readers made of its text.
pub fn host_cell_from_parts(value: GuestCell, uuid: Option<u128>, json: Option<String>) -> (r:
    Result<Cell, FdwError>)
    ensures
        match host_cell(
            value@,
            uuid,
            match json {
                Some(s) => Some(s@),
                None => None,
            },
        ) {
            Ok(c) => r matches Ok(x) && x@ == c,
            Err(e) => r matches Err(x) && x@ == e,
        },
{
    match value {
        GuestCell::Bool(v) => Ok(Cell::Bool(v)),
        GuestCell::I8(v) => Ok(Cell::I8(v)),
        GuestCell::I16(v) => Ok(Cell::I16(v)),
        GuestCell::F32(v) => Ok(Cell::F32(v)),
        GuestCell::I32(v) => Ok(Cell::I32(v)),
        GuestCell::F64(v) => Ok(Cell::F64(v)),
        GuestCell::I64(v) => Ok(Cell::I64(v)),
        GuestCell::Numeric(t) => match Numeric::parse(t.as_str()) {
            Some(n) => Ok(Cell::Numeric(n)),
            None => Err(FdwError::ValueParse(ParseKind::Decimal)),
        },
        GuestCell::String(t) => Ok(Cell::String(t)),
        GuestCell::Date(v) => {
            let x: i128 = v as i128 - PG_EPOCH_SEC as i128;
            let days: i128 = if x >= 0 {
                x / (SECS_PER_DAY as i128)
            } else {
                -((-(x + 1)) / (SECS_PER_DAY as i128)) - 1
            };
            if days < i32::MIN as i128 || days > i32::MAX as i128 {
                Err(FdwError::ValueParse(ParseKind::Date))
            } else {
                Ok(Cell::Date(Date { days: days as i32 }))
            }
        },
        GuestCell::Timestamp(v) => match instant_from_guest(v) {
            Some(t) => Ok(Cell::Timestamp(t)),
            None => Err(FdwError::ValueParse(ParseKind::Timestamp)),
        },
        GuestCell::Timestamptz(v) => match instant_from_guest(v) {
            Some(t) => Ok(Cell::Timestamptz(t)),
            None => Err(FdwError::ValueParse(ParseKind::Timestamp)),
        },
        GuestCell::Json(_) => match json {
            Some(t) => Ok(Cell::Json(t)),
            None => Err(FdwError::ValueParse(ParseKind::Json)),
        },
        GuestCell::Uuid(_) => match uuid {
            Some(u) => Ok(Cell::Uuid(u)),
            None => Err(FdwError::ValueParse(ParseKind::Uuid)),
        },
        GuestCell::Other(_) => Err(FdwError::PluginFault),
    }
}

/// What the UUID reader makes of a plugin's cell: of a UUID cell what it
/// reads in its text, of any other cell nothing.
pub open spec fn uuid_of(g: GuestCellView) -> Option<u128> {
    match g {
        GuestCellView::Uuid(t) => uuid_parsed(t),
        _ => None,
    }
}

/// What the JSON reader makes of a plugin's cell: of a document cell the
/// text written again, of any other cell nothing.
pub open spec fn json_of(g: GuestCellView) -> Option<Seq<char>> {
    match g {
        GuestCellView::Json(t) => json_normal_form(t),
        _ => None,
    }
}

impl Cell {
    /// Converts a plugin's cell to the host's.
    pub fn try_from_guest(value: GuestCell) -> (r: Result<Cell, FdwError>)
        ensures
            match host_cell(value@, uuid_of(value@), json_of(value@)) {
                Ok(c) => r matches Ok(x) && x@ == c,
                Err(e) => r matches Err(x) && x@ == e,
            },
    {
        let uuid = match &value {
            GuestCell::Uuid(t) => uuid_try_parse(t.as_str()),
            _ => None,
        };
        let json = match &value {
            GuestCell::Json(t) => json_reserialize(t.as_str()),
            _ => None,
        };
        host_cell_from_parts(value, uuid, json)
    }
}

impl GuestCell {
    /// Converts a host's cell to the plugin's.
    pub fn from_host(value: &Cell) -> (r: Result<GuestCell, FdwError>)
        ensures
            match guest_cell(value@) {
                Ok(c) => r matches Ok(x) && x@ == c,
                Err(e) => r matches Err(x) && x@ == e,
            },
    {
        match value {
            Cell::Bool(v) => Ok(GuestCell::Bool(*v)),
            Cell::I8(v) => Ok(GuestCell::I8(*v)),
            Cell::I16(v) => Ok(GuestCell::I16(*v)),
            Cell::F32(v) => Ok(GuestCell::F32(v.duplicate())),
            Cell::I32(v) => Ok(GuestCell::I32(*v)),
            Cell::F64(v) => Ok(GuestCell::F64(v.duplicate())),
            Cell::I64(v) => Ok(GuestCell::I64(*v)),
            Cell::Numeric(n) => {
                if n.scale <= crate::numeric::MAX_SCALE && (n.magnitude != 0 || !n.negative) {
                    Ok(GuestCell::Numeric(n.to_text()))
                } else {
                    Err(FdwError::ValueParse(ParseKind::Decimal))
                }
            },
            Cell::String(t) => Ok(GuestCell::String(t.clone())),
            Cell::Date(d) => Ok(GuestCell::Date(d.days as i64 * SECS_PER_DAY + PG_EPOCH_SEC)),
            Cell::Timestamp(t) => match instant_to_guest(*t) {
                Some(v) => Ok(GuestCell::Timestamp(v)),
                None => Err(FdwError::ValueParse(ParseKind::Timestamp)),
            },
            Cell::Timestamptz(t) => match instant_to_guest(*t) {
                Some(v) => Ok(GuestCell::Timestamptz(v)),
                None => Err(FdwError::ValueParse(ParseKind::Timestamp)),
            },
            Cell::Json(t) => Ok(GuestCell::Json(t.clone())),
            Cell::Uuid(u) => {
                let mut buf: Vec<char> = Vec::new();
                push_uuid(&mut buf, *u);
                Ok(GuestCell::Uuid(string_of(&buf)))
            },
            _ => Err(FdwError::PluginFault),
        }
    }
}

/// The content of a [`GuestValue`].
pub enum GuestValueView {
    Cell(GuestCellView),
    Array(Seq<GuestCellView>),
}

/// The views of a row of plugin cells.
pub open spec fn guest_cells_view(s: Seq<GuestCell>) -> Seq<GuestCellView> {
    Seq::new(s.len(), |i: int| s[i]@)
}

impl View for GuestValue {
    type V = GuestValueView;

    open spec fn view(&self) -> GuestValueView {
        match self {
            GuestValue::Cell(c) => GuestValueView::Cell(c@),
            GuestValue::Array(a) => GuestValueView::Array(guest_cells_view(a@)),
        }
    }
}

/// The plugin's cells for the first `n` of the host's; the error of the
/// first cell that the bridge does not carry.
pub open spec fn guest_cells(cells: Seq<CellView>, n: nat) -> Result<
    Seq<GuestCellView>,
    FdwErrorView,
>
    decreases n,
{
    if n == 0 {
        Ok(Seq::empty())
    } else {
        match guest_cells(cells, (n - 1) as nat) {
            Err(e) => Err(e),
            Ok(done) => match guest_cell(cells[n - 1]) {
                Ok(g) => Ok(done.push(g)),
                Err(e) => Err(e),
            },
        }
    }
}

/// Once a cell is not carried, the error stays.
pub proof fn lemma_guest_cells_fails(cells: Seq<CellView>, n: nat, m: nat)
    requires
        n <= m,
        guest_cells(cells, n) is Err,
    ensures
        guest_cells(cells, m) == guest_cells(cells, n),
    decreases m,
{
    if n < m {
        lemma_guest_cells_fails(cells, n, (m - 1) as nat);
    }
}

/// The operand that a host's operand is on the plugin's side.
pub open spec fn guest_value(v: crate::cell::ValueView) -> Result<GuestValueView, FdwErrorView> {
    match v {
        crate::cell::ValueView::Cell(c) => match guest_cell(c) {
            Ok(g) => Ok(GuestValueView::Cell(g)),
            Err(e) => Err(e),
        },
        crate::cell::ValueView::Array(a) => match guest_cells(a, a.len()) {
            Ok(g) => Ok(GuestValueView::Array(g)),
            Err(e) => Err(e),
        },
    }
}

impl GuestValue {
    /// Converts a host's operand to the plugin's.
    pub fn from_host(value: &Value) -> (r: Result<GuestValue, FdwError>)
        ensures
            match guest_value(value@) {
                Ok(g) => r matches Ok(x) && x@ == g,
                Err(e) => r matches Err(x) && x@ == e,
            },
    {
        match value {
            Value::Cell(c) => match GuestCell::from_host(c) {
                Ok(g) => Ok(GuestValue::Cell(g)),
                Err(e) => Err(e),
            },
            Value::Array(a) => {
                let ghost cells = crate::cell::cells_view(a@);
                let mut out: Vec<GuestCell> = Vec::new();
                let mut i: usize = 0;
                assert(guest_cells_view(out@) =~= Seq::empty());
                while i < a.len()
                    invariant
                        i <= a.len(),
                        cells == crate::cell::cells_view(a@),
                        value@ == crate::cell::ValueView::Array(cells),
                        guest_cells(cells, i as nat) == Ok::<Seq<GuestCellView>, FdwErrorView>(
                            guest_cells_view(out@),
                        ),
                    decreases a.len() - i,
                {
                    match GuestCell::from_host(&a[i]) {
                        Ok(g) => {
                            out.push(g);
                            assert(guest_cells_view(out@) =~= guest_cells(
                                cells,
                                (i + 1) as nat,
                            )->Ok_0);
                        },
                        Err(e) => {
                            proof {
                                lemma_guest_cells_fails(cells, (i + 1) as nat, cells.len());
                            }
                            return Err(e);
                        },
                    }
                    i += 1;
                }
                Ok(GuestValue::Array(out))
            },
        }
    }
}

impl GuestParam {
    /// Converts a host's parameter to the plugin's: the position cut to 32
    /// bits, the type's identifier as it is.
    pub fn from(value: Param) -> (r: GuestParam)
        ensures
            r.id == value.id as u32,
            r.type_oid == value.type_oid,
    {
        GuestParam { id: #[verifier::truncate] (value.id as u32), type_oid: value.type_oid }
    }
}

impl HostMetric {
    /// The host's counter of the same name.
    pub fn from(value: GuestMetric) -> (r: HostMetric)
        ensures
            r == match value {
                GuestMetric::CreateTimes => HostMetric::CreateTimes,
                GuestMetric::RowsIn => HostMetric::RowsIn,
                GuestMetric::RowsOut => HostMetric::RowsOut,
                GuestMetric::BytesIn => HostMetric::BytesIn,
                GuestMetric::BytesOut => HostMetric::BytesOut,
            },
    {
        match value {
            GuestMetric::CreateTimes => HostMetric::CreateTimes,
            GuestMetric::RowsIn => HostMetric::RowsIn,
            GuestMetric::RowsOut => HostMetric::RowsOut,
            GuestMetric::BytesIn => HostMetric::BytesIn,
            GuestMetric::BytesOut => HostMetric::BytesOut,
        }
    }
}

impl GuestImportSchemaType {
    /// The plugin's name of an inclusion mode.
    pub open spec fn spec_from(value: ImportSchemaType) -> GuestImportSchemaType {
        match value {
            ImportSchemaType::FdwImportSchemaAll => GuestImportSchemaType::All,
            ImportSchemaType::FdwImportSchemaLimitTo => GuestImportSchemaType::LimitTo,
            ImportSchemaType::FdwImportSchemaExcept => GuestImportSchemaType::Except,
        }
    }

    /// The plugin's name of an inclusion mode.
    pub fn from(value: ImportSchemaType) -> (r: GuestImportSchemaType)
        ensures
            r == Self::spec_from(value),
    {
        match value {
            ImportSchemaType::FdwImportSchemaAll => GuestImportSchemaType::All,
            ImportSchemaType::FdwImportSchemaLimitTo => GuestImportSchemaType::LimitTo,
            ImportSchemaType::FdwImportSchemaExcept => GuestImportSchemaType::Except,
        }
    }
}

/// A copy of a list of texts.
pub fn copy_names(v: &Vec<String>) -> (r: Vec<String>)
    ensures
        crate::cell::names_view(r@) == crate::cell::names_view(v@),
{
    let mut r: Vec<String> = Vec::new();
    let mut i: usize = 0;
    while i < v.len()
        invariant
            i <= v.len(),
            r.len() == i,
            forall|j: int| 0 <= j < i ==> r[j]@ == v[j]@,
        decreases v.len() - i,
    {
        r.push(v[i].clone());
        i += 1;
    }
    assert(crate::cell::names_view(r@) =~= crate::cell::names_view(v@));
    r
}

impl GuestImportForeignSchemaStmt {
    /// Converts a host's schema-import request to the plugin's, field for
    /// field; the options stay on the host's side.
    pub fn from(value: ImportForeignSchemaStmt) -> (r: GuestImportForeignSchemaStmt)
        ensures
            r.server_name@ == value.server_name@,
            r.remote_schema@ == value.remote_schema@,
            r.local_schema@ == value.local_schema@,
            r.list_type == GuestImportSchemaType::spec_from(value.list_type),
            crate::cell::names_view(r.table_list@) == crate::cell::names_view(value.table_list@),
    {
        GuestImportForeignSchemaStmt {
            server_name: value.server_name.clone(),
            remote_schema: value.remote_schema.clone(),
            local_schema: value.local_schema.clone(),
            list_type: GuestImportSchemaType::from(value.list_type),
            table_list: copy_names(&value.table_list),
        }
    }
}

/// A canonical instant that is carried to a plugin and back is unchanged:
/// the two conversions add and subtract the same offset. This holds of
/// every valid instant whose count from the Unix epoch fits 64 bits.
pub proof fn law_instant_there_and_back(t: Timestamp)
    requires
        t.spec_is_valid(),
        t.micros + PG_EPOCH_MS <= i64::MAX,
    ensures
        guest_cell(CellView::Timestamp(t)) == Ok::<GuestCellView, FdwErrorView>(
            GuestCellView::Timestamp((t.micros + PG_EPOCH_MS) as i64),
        ),
        host_cell(GuestCellView::Timestamp((t.micros + PG_EPOCH_MS) as i64), None, None) == Ok::<
            CellView,
            FdwErrorView,
        >(CellView::Timestamp(t)),
        guest_cell(CellView::Timestamptz(t)) == Ok::<GuestCellView, FdwErrorView>(
            GuestCellView::Timestamptz((t.micros + PG_EPOCH_MS) as i64),
        ),
        host_cell(GuestCellView::Timestamptz((t.micros + PG_EPOCH_MS) as i64), None, None) == Ok::<
            CellView,
            FdwErrorView,
        >(CellView::Timestamptz(t)),
{
}

/// A plugin's instant that is carried to the host and back is unchanged,
/// where the host accepts it.
pub proof fn law_instant_back_and_there(unix_micros: i64)
    requires
        host_instant(unix_micros) is Some,
    ensures
        guest_instant(host_instant(unix_micros)->0) == Some(unix_micros),
{
}

/// A canonical date that is carried to a plugin and back is unchanged.
pub proof fn law_date_there_and_back(d: Date)
    ensures
        guest_cell(CellView::Date(d)) == Ok::<GuestCellView, FdwErrorView>(
            GuestCellView::Date((d.days * (SECS_PER_DAY as int) + PG_EPOCH_SEC) as i64),
        ),
        host_cell(
            GuestCellView::Date((d.days * (SECS_PER_DAY as int) + PG_EPOCH_SEC) as i64),
            None,
            None,
        ) == Ok::<CellView, FdwErrorView>(CellView::Date(d)),
{
}

/// A decimal that is carried to a plugin and back is unchanged: the text
/// that it crosses as is read as the same number.
pub proof fn law_decimal_there_and_back(n: Numeric)
    requires
        n.wf(),
    ensures
        guest_cell(CellView::Numeric(n)) == Ok::<GuestCellView, FdwErrorView>(
            GuestCellView::Numeric(n.spec_text()),
        ),
        host_cell(GuestCellView::Numeric(n.spec_text()), None, None) == Ok::<
            CellView,
            FdwErrorView,
        >(CellView::Numeric(n)),
{
    crate::numeric::law_text_then_parse(n);
}

} // verus!

//! The column-store backend as a state machine: every operation of the
//! capability contract decides from the state and what it is handed, and
//! says what the caller is to ask of the remote system.

use crate::cell::{opt_view, Cell, CellView, Column, Limit, Qual, Row, Sort};
use crate::error::{FdwError, FdwErrorView};
use crate::options::{require_option, Options};
use crate::pushdown::{
    compile_query, compiled_params, compiled_query, params_view, BoundParam,
};
use crate::error::ParseKind;
use crate::literal::{cell_text, cell_text_error, join};
use crate::pushdown::{lemma_join_push, push_part};
use crate::remote::{
    cell_to_remote, field_to_cell, is_nullable, read_field, write_value, RemoteField, RemoteType,
    RemoteValue, RemoteValueView,
};
use crate::text::{push_str, same_text, string_of};
use vstd::prelude::*;

verus! {

/// A column of a remote result: its name and declared type.
#[derive(Debug, PartialEq)]
pub struct RemoteColumn {
    pub name: String,
    pub ty: RemoteType,
}

/// The result of a remote query, fetched whole: the columns, and for
/// each row the values of the columns in their order.
#[derive(Debug, PartialEq)]
pub struct RemoteBlock {
    pub columns: Vec<RemoteColumn>,
    pub rows: Vec<Vec<Option<RemoteValue>>>,
}

/// Where an instance stands in its life: it is created, then either scans
/// or modifies, one at a time.
#[derive(Debug, Clone, Copy, PartialEq, Eq, Structural)]
pub enum Phase {
    /// Created, or done with a scan: no scan and no modification is under
    /// way.
    Created,
    /// Between `begin_scan` and `end_scan`.
    Scanning,
    /// After `begin_modify`.
    Modifying,
}

/// The state of one scan or one modification on the column store.
#[derive(Debug, PartialEq)]
pub struct ClickHouseFdw {
    pub phase: Phase,
    pub conn_str: String,
    pub table: String,
    pub rowid_col: String,
    pub tgt_cols: Vec<Column>,
    pub scan_blk: Option<RemoteBlock>,
    pub row_idx: usize,
    pub params: Vec<BoundParam>,
}

/// The place of the first column named `name`.
pub open spec fn find_column(name: Seq<char>, columns: Seq<RemoteColumn>) -> Option<int>
    decreases columns.len(),
{
    if columns.len() == 0 {
        None
    } else {
        match find_column(name, columns.drop_last()) {
            Some(i) => Some(i),
            None => if columns.last().name@ == name {
                Some(columns.len() - 1)
            } else {
                None
            },
        }
    }
}

/// The cell of the first parameter bound to the field `name`.
pub open spec fn bound_cell(name: Seq<char>, params: Seq<(Seq<char>, CellView)>) -> Option<
    CellView,
>
    decreases params.len(),
{
    if params.len() == 0 {
        None
    } else {
        match bound_cell(name, params.drop_last()) {
            Some(c) => Some(c),
            None => if params.last().0 == name {
                Some(params.last().1)
            } else {
                None
            },
        }
    }
}

/// The cell of a target column in a row of a scan: the cell of the
/// parameter bound to the column where there is one; else what the
/// remote row holds in the column of that name; else nothing.
pub open spec fn scan_cell(
    name: Seq<char>,
    params: Seq<(Seq<char>, CellView)>,
    columns: Seq<RemoteColumn>,
    src: Seq<Option<RemoteValue>>,
) -> Result<Option<CellView>, FdwErrorView> {
    match bound_cell(name, params) {
        Some(c) => Ok(Some(c)),
        None => match find_column(name, columns) {
            None => Ok(None),
            Some(i) => if i < src.len() {
                read_field(columns[i].ty, opt_view(src[i]))
            } else {
                Err(FdwErrorView::RemoteProtocol)
            },
        },
    }
}

/// The cells of the first `n` target columns in a row of a scan; the
/// error of the first column that cannot be read.
pub open spec fn scan_cells(
    cols: Seq<Column>,
    params: Seq<(Seq<char>, CellView)>,
    columns: Seq<RemoteColumn>,
    src: Seq<Option<RemoteValue>>,
    n: nat,
) -> Result<Seq<Option<CellView>>, FdwErrorView>
    decreases n,
{
    if n == 0 {
        Ok(Seq::empty())
    } else {
        match scan_cells(cols, params, columns, src, (n - 1) as nat) {
            Err(e) => Err(e),
            Ok(done) => match scan_cell(cols[n - 1].name@, params, columns, src) {
                Ok(c) => Ok(done.push(c)),
                Err(e) => Err(e),
            },
        }
    }
}

/// The names of columns.
pub open spec fn column_names(cols: Seq<Column>) -> Seq<Seq<char>> {
    Seq::new(cols.len(), |i: int| cols[i].name@)
}

/// Once a column cannot be read, the error stays.
pub proof fn lemma_scan_cells_fails(
    cols: Seq<Column>,
    params: Seq<(Seq<char>, CellView)>,
    columns: Seq<RemoteColumn>,
    src: Seq<Option<RemoteValue>>,
    n: nat,
    m: nat,
)
    requires
        n <= m,
        scan_cells(cols, params, columns, src, n) is Err,
    ensures
        scan_cells(cols, params, columns, src, m) == scan_cells(cols, params, columns, src, n),
    decreases m,
{
    if n < m {
        lemma_scan_cells_fails(cols, params, columns, src, n, (m - 1) as nat);
    }
}

/// The place of the first column named `name`.
pub fn column_index(name: &str, columns: &Vec<RemoteColumn>) -> (r: Option<usize>)
    ensures
        match r {
            Some(i) => find_column(name@, columns@) == Some(i as int) && i < columns.len(),
            None => find_column(name@, columns@) is None,
        },
{
    let mut i: usize = 0;
    while i < columns.len()
        invariant
            i <= columns.len(),
            find_column(name@, columns@.take(i as int)) is None,
        decreases columns.len() - i,
    {
        assert(columns@.take(i + 1).drop_last() == columns@.take(i as int));
        if same_text(columns[i].name.as_str(), name) {
            proof {
                lemma_find_column_stays(name@, columns@, (i + 1) as nat, columns@.len());
            }
            return Some(i);
        }
        i += 1;
    }
    assert(columns@.take(columns.len() as int) == columns@);
    None
}

/// A column found among the first `n` is the one found among all.
pub proof fn lemma_find_column_stays(name: Seq<char>, columns: Seq<RemoteColumn>, n: nat, m: nat)
    requires
        n <= m <= columns.len(),
        find_column(name, columns.take(n as int)) is Some,
    ensures
        find_column(name, columns.take(m as int)) == find_column(name, columns.take(n as int)),
        m == columns.len() ==> find_column(name, columns) == find_column(
            name,
            columns.take(n as int),
        ),
    decreases m,
{
    if n < m {
        lemma_find_column_stays(name, columns, n, (m - 1) as nat);
        assert(columns.take(m as int).drop_last() == columns.take(m - 1));
    }
    assert(columns.take(columns.len() as int) == columns);
}

/// The place of the first parameter bound to the field `name`.
pub fn param_index(name: &str, params: &Vec<BoundParam>) -> (r: Option<usize>)
    ensures
        match r {
            Some(i) => i < params.len() && bound_cell(name@, params_view(params@)) == Some(
                params[i as int].cell@,
            ),
            None => bound_cell(name@, params_view(params@)) is None,
        },
{
    let ghost view = params_view(params@);
    let mut i: usize = 0;
    while i < params.len()
        invariant
            i <= params.len(),
            view == params_view(params@),
            bound_cell(name@, view.take(i as int)) is None,
        decreases params.len() - i,
    {
        assert(view.take(i + 1).drop_last() == view.take(i as int));
        if same_text(params[i].field.as_str(), name) {
            proof {
                lemma_bound_cell_stays(name@, view, (i + 1) as nat, view.len());
            }
            return Some(i);
        }
        i += 1;
    }
    assert(view.take(view.len() as int) == view);
    None
}

/// A parameter found among the first `n` is the one found among all.
pub proof fn lemma_bound_cell_stays(
    name: Seq<char>,
    params: Seq<(Seq<char>, CellView)>,
    n: nat,
    m: nat,
)
    requires
        n <= m <= params.len(),
        bound_cell(name, params.take(n as int)) is Some,
    ensures
        bound_cell(name, params.take(m as int)) == bound_cell(name, params.take(n as int)),
        m == params.len() ==> bound_cell(name, params) == bound_cell(name, params.take(n as int)),
    decreases m,
{
    if n < m {
        lemma_bound_cell_stays(name, params, n, (m - 1) as nat);
        assert(params.take(m as int).drop_last() == params.take(m - 1));
    }
    assert(params.take(params.len() as int) == params);
}

/// A copy of a list of columns.
pub fn copy_columns(columns: &[Column]) -> (r: Vec<Column>)
    ensures
        r.len() == columns.len(),
        forall|i: int|
            0 <= i < r.len() ==> (#[trigger] r[i]).name@ == columns[i].name@ && r[i].type_oid
                == columns[i].type_oid,
        column_names(r@) == column_names(columns@),
{
    let mut r: Vec<Column> = Vec::new();
    let mut i: usize = 0;
    while i < columns.len()
        invariant
            i <= columns.len(),
            r.len() == i,
            forall|j: int|
                0 <= j < i ==> (#[trigger] r[j]).name@ == columns[j].name@ && r[j].type_oid
                    == columns[j].type_oid,
        decreases columns.len() - i,
    {
        r.push(Column { name: columns[i].name.clone(), type_oid: columns[i].type_oid });
        i += 1;
    }
    assert(column_names(r@) =~= column_names(columns@));
    r
}

impl ClickHouseFdw {
    /// Whether a scan has no row left to hand out: no result is loaded, or
    /// every row of it was handed out.
    pub open spec fn exhausted(&self) -> bool {
        match self.scan_blk {
            None => true,
            Some(block) => self.row_idx >= block.rows.len(),
        }
    }

    /// A fresh instance for a server whose connection string is settled.
    /// No connection is opened.
    pub fn new(conn_str: String) -> (r: ClickHouseFdw)
        ensures
            r.phase == Phase::Created,
            r.conn_str == conn_str,
            r.table@ == Seq::<char>::empty(),
            r.rowid_col@ == Seq::<char>::empty(),
            r.tgt_cols@.len() == 0,
            r.scan_blk is None,
            r.row_idx == 0,
            r.params@.len() == 0,
            r.exhausted(),
    {
        ClickHouseFdw {
            phase: Phase::Created,
            conn_str,
            table: String::new(),
            rowid_col: String::new(),
            tgt_cols: Vec::new(),
            scan_blk: None,
            row_idx: 0,
            params: Vec::new(),
        }
    }

    /// Starts a scan: takes the table from the option `table`, keeps the
    /// target columns, compiles the query and hands it out for the caller
    /// to ask. The parameters that a templated table binds are kept for
    /// the rows to come.
    pub fn begin_scan(
        &mut self,
        quals: &[Qual],
        columns: &[Column],
        sorts: &[Sort],
        limit: &Option<Limit>,
        options: &Options,
    ) -> (r: Result<String, FdwError>)
        ensures
            !options@.contains_key("table"@) ==> (r matches Err(e) && e@
                == FdwErrorView::OptionMissing("table"@)),
            options@.contains_key("table"@) ==> match compiled_query(
                options@["table"@],
                quals@,
                columns@,
                sorts@,
                *limit,
            ) {
                Ok(t) => r matches Ok(sql) && sql@ == t && final(self).phase == Phase::Scanning
                    && final(self).table@ == options@["table"@]
                    && column_names(final(self).tgt_cols@) == column_names(columns@)
                    && final(self).row_idx == 0
                    && params_view(final(self).params@) == compiled_params(
                    options@["table"@],
                    quals@,
                ),
                Err(e) => r matches Err(x) && x@ == e,
            },
            r is Err ==> final(self).params == old(self).params
                && final(self).phase == old(self).phase,
            final(self).conn_str == old(self).conn_str,
            final(self).rowid_col == old(self).rowid_col,
            final(self).scan_blk == old(self).scan_blk,
    {
        let table = match require_option("table", options) {
            Ok(t) => t.clone(),
            Err(e) => {
                return Err(e);
            },
        };
        self.table = table;
        self.tgt_cols = copy_columns(columns);
        self.row_idx = 0;
        match compile_query(self.table.as_str(), quals, columns, sorts, limit) {
            Ok((sql, params)) => {
                self.params = params;
                self.phase = Phase::Scanning;
                Ok(sql)
            },
            Err(e) => Err(e),
        }
    }

    /// Takes the result that the remote system gave to the query of
    /// `begin_scan`; the rows are handed out from the first.
    pub fn load_block(&mut self, block: RemoteBlock)
        ensures
            final(self).scan_blk == Some(block),
            final(self).row_idx == 0,
            final(self).phase == old(self).phase,
            final(self).conn_str == old(self).conn_str,
            final(self).table == old(self).table,
            final(self).rowid_col == old(self).rowid_col,
            final(self).tgt_cols == old(self).tgt_cols,
            final(self).params == old(self).params,
            block.rows@.len() == 0 ==> final(self).exhausted(),
    {
        self.scan_blk = Some(block);
        self.row_idx = 0;
    }

    /// Hands out the next row of the scan: appends to `row` one cell for
    /// each target column, in their order, and says `Some`; says `None`
    /// and leaves everything as it was once the rows are used up, however
    /// often it is asked.
    pub fn iter_scan(&mut self, row: &mut Row) -> (r: Result<Option<()>, FdwError>)
        ensures
            old(self).exhausted() ==> (r matches Ok(None) && final(self).exhausted() && final(self).row_idx
                == old(self).row_idx && final(row).names() == old(row).names() && final(row).cells()
                == old(row).cells()),
            !old(self).exhausted() ==> match scan_cells(
                old(self).tgt_cols@,
                params_view(old(self).params@),
                old(self).scan_blk->0.columns@,
                old(self).scan_blk->0.rows@[old(self).row_idx as int]@,
                old(self).tgt_cols@.len(),
            ) {
                Ok(cells) => r matches Ok(Some(_)) && final(self).row_idx == old(self).row_idx + 1
                    && final(row).names() == old(row).names() + column_names(old(self).tgt_cols@)
                    && final(row).values() == old(row).values() + cells,
                Err(e) => r matches Err(x) && x@ == e,
            },
            r is Err ==> final(self).row_idx == old(self).row_idx,
            r is Err ==> exists|j: nat|
                j < old(self).tgt_cols@.len() && (#[trigger] scan_cells(
                    old(self).tgt_cols@,
                    params_view(old(self).params@),
                    old(self).scan_blk->0.columns@,
                    old(self).scan_blk->0.rows@[old(self).row_idx as int]@,
                    j,
                )) is Ok && final(row).names() == old(row).names() + column_names(
                    old(self).tgt_cols@,
                ).take(j as int) && final(row).values() == old(row).values() + scan_cells(
                    old(self).tgt_cols@,
                    params_view(old(self).params@),
                    old(self).scan_blk->0.columns@,
                    old(self).scan_blk->0.rows@[old(self).row_idx as int]@,
                    j,
                )->Ok_0,
            final(self).scan_blk == old(self).scan_blk,
            final(self).phase == old(self).phase,
            final(self).conn_str == old(self).conn_str,
            final(self).table == old(self).table,
            final(self).rowid_col == old(self).rowid_col,
            final(self).tgt_cols == old(self).tgt_cols,
            final(self).params == old(self).params,
    {
        let block = match &self.scan_blk {
            Some(block) => block,
            None => {
                return Ok(None);
            },
        };
        if self.row_idx >= block.rows.len() {
            return Ok(None);
        }
        let src = &block.rows[self.row_idx];
        let ghost pv = params_view(self.params@);
        let ghost mut cells: Seq<Option<CellView>> = Seq::empty();
        let mut j: usize = 0;
        while j < self.tgt_cols.len()
            invariant
                j <= self.tgt_cols.len(),
                *self == *old(self),
                self.scan_blk == Some(*block),
                self.row_idx < block.rows.len(),
                *src == block.rows@[self.row_idx as int],
                pv == params_view(self.params@),
                scan_cells(self.tgt_cols@, pv, block.columns@, src@, j as nat) == Ok::<
                    Seq<Option<CellView>>,
                    FdwErrorView,
                >(cells),
                row.names() == old(row).names() + column_names(self.tgt_cols@).take(j as int),
                row.values() == old(row).values() + cells,
            decreases self.tgt_cols.len() - j,
        {
            let name = self.tgt_cols[j].name.as_str();
            let cell = match param_index(name, &self.params) {
                Some(p) => Some(self.params[p].cell.duplicate()),
                None => match column_index(name, &block.columns) {
                    None => None,
                    Some(i) => {
                        if i >= src.len() {
                            proof {
                                lemma_scan_cells_fails(
                                    self.tgt_cols@,
                                    pv,
                                    block.columns@,
                                    src@,
                                    (j + 1) as nat,
                                    self.tgt_cols@.len(),
                                );
                            }
                            return Err(FdwError::RemoteProtocol);
                        }
                        match field_to_cell(&block.columns[i].ty, &src[i]) {
                            Ok(c) => c,
                            Err(e) => {
                                proof {
                                    lemma_scan_cells_fails(
                                        self.tgt_cols@,
                                        pv,
                                        block.columns@,
                                        src@,
                                        (j + 1) as nat,
                                        self.tgt_cols@.len(),
                                    );
                                }
                                return Err(e);
                            },
                        }
                    },
                },
            };
            proof {
                crate::cell::lemma_opts_view_push(row.cells(), cell);
                assert(column_names(self.tgt_cols@).take(j + 1) == column_names(
                    self.tgt_cols@,
                ).take(j as int).push(name@));
                cells = cells.push(opt_view(cell));
            }
            row.push(name, cell);
            j += 1;
        }
        assert(column_names(self.tgt_cols@).take(self.tgt_cols@.len() as int) == column_names(
            self.tgt_cols@,
        ));
        self.row_idx += 1;
        Ok(Some(()))
    }

    /// Ends the scan and lets go of the result. Asking again changes
    /// nothing.
    pub fn end_scan(&mut self)
        ensures
            final(self).scan_blk is None,
            final(self).exhausted(),
            final(self).phase == (if old(self).phase == Phase::Scanning {
                Phase::Created
            } else {
                old(self).phase
            }),
            final(self).conn_str == old(self).conn_str,
            final(self).table == old(self).table,
            final(self).rowid_col == old(self).rowid_col,
            final(self).tgt_cols == old(self).tgt_cols,
            final(self).row_idx == old(self).row_idx,
            final(self).params == old(self).params,
    {
        self.scan_blk = None;
        if self.phase == Phase::Scanning {
            self.phase = Phase::Created;
        }
    }

    /// Starts a modification: takes the table from the option `table` and
    /// the column that identifies a row from the option `rowid_column`.
    pub fn begin_modify(&mut self, options: &Options) -> (r: Result<(), FdwError>)
        ensures
            match r {
                Ok(_) => options@.contains_key("table"@) && options@.contains_key(
                    "rowid_column"@,
                ) && final(self).table@ == options@["table"@] && final(self).rowid_col@
                    == options@["rowid_column"@] && final(self).phase == Phase::Modifying,
                Err(e) => if !options@.contains_key("table"@) {
                    e@ == FdwErrorView::OptionMissing("table"@)
                } else {
                    !options@.contains_key("rowid_column"@) && e@ == FdwErrorView::OptionMissing(
                        "rowid_column"@,
                    )
                },
            },
            final(self).conn_str == old(self).conn_str,
            final(self).tgt_cols == old(self).tgt_cols,
            final(self).scan_blk == old(self).scan_blk,
            final(self).row_idx == old(self).row_idx,
            final(self).params == old(self).params,
    {
        let table = match require_option("table", options) {
            Ok(t) => t.clone(),
            Err(e) => {
                return Err(e);
            },
        };
        self.table = table;
        let rowid = match require_option("rowid_column", options) {
            Ok(t) => t.clone(),
            Err(e) => {
                return Err(e);
            },
        };
        self.rowid_col = rowid;
        self.phase = Phase::Modifying;
        Ok(())
    }
}

/// The fields that the first `n` columns of a row are written as for
/// the remote columns of `probe`: name, value and the mark of a nullable
/// column. A column of the row that the remote table lacks is a breach
/// of protocol; a column without a cell is left out.
pub open spec fn insert_fields(
    names: Seq<Seq<char>>,
    cells: Seq<Option<Cell>>,
    probe: Seq<RemoteColumn>,
    n: nat,
) -> Result<Seq<(Seq<char>, RemoteValueView, bool)>, FdwErrorView>
    decreases n,
{
    if n == 0 {
        Ok(Seq::empty())
    } else {
        match insert_fields(names, cells, probe, (n - 1) as nat) {
            Err(e) => Err(e),
            Ok(done) => match find_column(names[n - 1], probe) {
                None => Err(FdwErrorView::RemoteProtocol),
                Some(i) => match cells[n - 1] {
                    None => Ok(done),
                    Some(c) => match write_value(c@, probe[i].ty) {
                        Ok(v) => Ok(done.push((names[n - 1], v, is_nullable(probe[i].ty)))),
                        Err(e) => Err(e),
                    },
                },
            },
        }
    }
}

/// Once a column cannot be written, the error stays.
pub proof fn lemma_insert_fields_fails(
    names: Seq<Seq<char>>,
    cells: Seq<Option<Cell>>,
    probe: Seq<RemoteColumn>,
    n: nat,
    m: nat,
)
    requires
        n <= m,
        insert_fields(names, cells, probe, n) is Err,
    ensures
        insert_fields(names, cells, probe, m) == insert_fields(names, cells, probe, n),
    decreases m,
{
    if n < m {
        lemma_insert_fields_fails(names, cells, probe, n, (m - 1) as nat);
    }
}

/// The content of named fields.
pub open spec fn fields_view(v: Seq<(String, RemoteField)>) -> Seq<
    (Seq<char>, RemoteValueView, bool),
> {
    Seq::new(v.len(), |i: int| (v[i].0@, v[i].1.value@, v[i].1.nullable))
}

/// The assignments of an update for the first `n` columns of a row: for
/// each column but the one that identifies the row its name, an equals
/// sign and the cell's literal, or `null` where it has no cell.
pub open spec fn set_texts(
    names: Seq<Seq<char>>,
    cells: Seq<Option<Cell>>,
    rowid_col: Seq<char>,
    n: nat,
) -> Result<Seq<Seq<char>>, ParseKind>
    decreases n,
{
    if n == 0 {
        Ok(Seq::empty())
    } else {
        match set_texts(names, cells, rowid_col, (n - 1) as nat) {
            Err(k) => Err(k),
            Ok(done) => if names[n - 1] == rowid_col {
                Ok(done)
            } else {
                match cells[n - 1] {
                    None => Ok(done.push(names[n - 1] + " = null"@)),
                    Some(c) => match cell_text(c) {
                        Some(t) => Ok(done.push(names[n - 1] + " = "@ + t)),
                        None => Err(cell_text_error(c)),
                    },
                }
            },
        }
    }
}

/// Once a cell has no literal, the error stays.
pub proof fn lemma_set_texts_fails(
    names: Seq<Seq<char>>,
    cells: Seq<Option<Cell>>,
    rowid_col: Seq<char>,
    n: nat,
    m: nat,
)
    requires
        n <= m,
        set_texts(names, cells, rowid_col, n) is Err,
    ensures
        set_texts(names, cells, rowid_col, m) == set_texts(names, cells, rowid_col, n),
    decreases m,
{
    if n < m {
        lemma_set_texts_fails(names, cells, rowid_col, n, (m - 1) as nat);
    }
}

/// The statement that updates the row identified by `rowid`.
pub open spec fn update_text(
    table: Seq<char>,
    rowid_col: Seq<char>,
    rowid: Cell,
    names: Seq<Seq<char>>,
    cells: Seq<Option<Cell>>,
) -> Result<Seq<char>, FdwErrorView> {
    match set_texts(names, cells, rowid_col, names.len()) {
        Err(k) => Err(FdwErrorView::ValueParse(k)),
        Ok(sets) => match cell_text(rowid) {
            None => Err(FdwErrorView::ValueParse(cell_text_error(rowid))),
            Some(id) => Ok(
                "alter table "@ + table + " update "@ + join(sets, ", "@) + " where "@ + rowid_col
                    + " = "@ + id,
            ),
        },
    }
}

/// The statement that deletes the row identified by `rowid`.
pub open spec fn delete_text(table: Seq<char>, rowid_col: Seq<char>, rowid: Cell) -> Result<
    Seq<char>,
    FdwErrorView,
> {
    match cell_text(rowid) {
        None => Err(FdwErrorView::ValueParse(cell_text_error(rowid))),
        Some(id) => Ok("alter table "@ + table + " delete where "@ + rowid_col + " = "@ + id),
    }
}

impl ClickHouseFdw {
    /// The query that learns the types of the table's columns without
    /// fetching a row.
    pub fn probe_query(&self) -> (sql: String)
        ensures
            sql@ == "select * from "@ + self.table@ + " where false"@,
    {
        let mut buf: Vec<char> = Vec::new();
        push_str(&mut buf, "select * from ");
        push_str(&mut buf, self.table.as_str());
        push_str(&mut buf, " where false");
        string_of(&buf)
    }

    /// Builds the remote row for an insert: each cell of `src` written for
    /// the remote column of its name, as `probe` declares it.
    pub fn insert(&self, src: &Row, probe: &Vec<RemoteColumn>) -> (r: Result<
        Vec<(String, RemoteField)>,
        FdwError,
    >)
        ensures
            match insert_fields(src.names(), src.cells(), probe@, src.names().len()) {
                Ok(fields) => r matches Ok(v) && fields_view(v@) == fields,
                Err(e) => r matches Err(x) && x@ == e,
            },
    {
        let mut out: Vec<(String, RemoteField)> = Vec::new();
        let mut i: usize = 0;
        assert(fields_view(out@) =~= Seq::empty());
        while i < src.len()
            invariant
                i <= src.names().len(),
                src.names().len() == src.cells().len(),
                insert_fields(src.names(), src.cells(), probe@, i as nat) == Ok::<
                    Seq<(Seq<char>, RemoteValueView, bool)>,
                    FdwErrorView,
                >(fields_view(out@)),
            decreases src.names().len() - i,
        {
            let name = src.name(i);
            proof {
                if find_column(name@, probe@) is None || (src.cells()[i as int] matches Some(c)
                    && write_value(c@, probe@[find_column(name@, probe@)->0].ty) is Err) {
                    lemma_insert_fields_fails(
                        src.names(),
                        src.cells(),
                        probe@,
                        (i + 1) as nat,
                        src.names().len(),
                    );
                }
            }
            let col = match column_index(name.as_str(), probe) {
                Some(c) => c,
                None => {
                    return Err(FdwError::RemoteProtocol);
                },
            };
            match src.cell(i) {
                None => {},
                Some(c) => match cell_to_remote(c, &probe[col].ty) {
                    Ok(field) => {
                        out.push((name.clone(), field));
                        assert(fields_view(out@) =~= insert_fields(
                            src.names(),
                            src.cells(),
                            probe@,
                            (i + 1) as nat,
                        )->Ok_0);
                    },
                    Err(e) => {
                        return Err(e);
                    },
                },
            }
            i += 1;
        }
        Ok(out)
    }

    /// Builds the statement that updates the row identified by `rowid`
    /// with the cells of `new_row`.
    pub fn update(&self, rowid: &Cell, new_row: &Row) -> (r: Result<String, FdwError>)
        ensures
            match update_text(
                self.table@,
                self.rowid_col@,
                *rowid,
                new_row.names(),
                new_row.cells(),
            ) {
                Ok(t) => r matches Ok(s) && s@ == t,
                Err(e) => r matches Err(x) && x@ == e,
            },
    {
        let mut buf: Vec<char> = Vec::new();
        push_str(&mut buf, "alter table ");
        push_str(&mut buf, self.table.as_str());
        push_str(&mut buf, " update ");
        let ghost head = buf@;
        let ghost mut sets: Seq<Seq<char>> = Seq::empty();
        let mut first = true;
        let mut i: usize = 0;
        while i < new_row.len()
            invariant
                i <= new_row.names().len(),
                new_row.names().len() == new_row.cells().len(),
                set_texts(new_row.names(), new_row.cells(), self.rowid_col@, i as nat) == Ok::<
                    Seq<Seq<char>>,
                    ParseKind,
                >(sets),
                first == (sets.len() == 0),
                buf@ == head + join(sets, ", "@),
            decreases new_row.names().len() - i,
        {
            let name = new_row.name(i);
            if !same_text(name.as_str(), self.rowid_col.as_str()) {
                let mut part: Vec<char> = Vec::new();
                push_str(&mut part, name.as_str());
                match new_row.cell(i) {
                    None => {
                        push_str(&mut part, " = null");
                    },
                    Some(c) => {
                        push_str(&mut part, " = ");
                        match c.push_text(&mut part) {
                            Ok(()) => {},
                            Err(e) => {
                                proof {
                                    lemma_set_texts_fails(
                                        new_row.names(),
                                        new_row.cells(),
                                        self.rowid_col@,
                                        (i + 1) as nat,
                                        new_row.names().len(),
                                    );
                                }
                                return Err(e);
                            },
                        }
                    },
                }
                push_part(&mut buf, first, ", ", &part);
                proof {
                    lemma_join_push(sets, ", "@, part@);
                    sets = sets.push(part@);
                }
                first = false;
            }
            i += 1;
        }
        push_str(&mut buf, " where ");
        push_str(&mut buf, self.rowid_col.as_str());
        push_str(&mut buf, " = ");
        match rowid.push_text(&mut buf) {
            Ok(()) => {},
            Err(e) => {
                return Err(e);
            },
        }
        Ok(string_of(&buf))
    }

    /// Builds the statement that deletes the row identified by `rowid`.
    pub fn delete(&self, rowid: &Cell) -> (r: Result<String, FdwError>)
        ensures
            match delete_text(self.table@, self.rowid_col@, *rowid) {
                Ok(t) => r matches Ok(s) && s@ == t,
                Err(e) => r matches Err(x) && x@ == e,
            },
    {
        let mut buf: Vec<char> = Vec::new();
        push_str(&mut buf, "alter table ");
        push_str(&mut buf, self.table.as_str());
        push_str(&mut buf, " delete where ");
        push_str(&mut buf, self.rowid_col.as_str());
        push_str(&mut buf, " = ");
        match rowid.push_text(&mut buf) {
            Ok(()) => {},
            Err(e) => {
                return Err(e);
            },
        }
        Ok(string_of(&buf))
    }
}

} // verus!

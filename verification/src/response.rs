//! The decisions of reading a query's response: what each token does to
//! the result being gathered, and when reading stops.
use vstd::prelude::*;
use crate::column_parser::ColumnMeta;
use crate::error::{owned, Error};
use crate::negotiation::{reports, server_error, ServerError, ServerMessage};
use crate::session::{descriptor_after, process_transaction_env_change, EnvChange};
use crate::row::{convert_nbc_row, convert_raw_row, nbc_row_from, row_from, views};
use crate::value::{SqlValue, ValueView};
use crate::column_value::{column_value_spec, parse_column_value};

verus! {

/// A token of a query's response.
pub enum QueryToken {
    /// COLMETADATA: the columns of the result set that follows.
    ColMetaData(Vec<ColumnMeta>),
    /// ROW: the bytes of one row's values.
    Row(Vec<u8>),
    /// NBCROW: the NULL bitmap and the bytes of the non-NULL values.
    NbcRow { null_bitmap: Vec<u8>, data: Vec<u8> },
    /// ERROR.
    Error(ServerMessage),
    /// DONE, with its error and more-results flags.
    Done { error: bool, more: bool },
    /// DONEPROC, with its error flag.
    DoneProc { error: bool },
    /// DONEINPROC, with its error flag.
    DoneInProc { error: bool },
    /// ENVCHANGE.
    EnvChange(EnvChange),
    /// Any other token (INFO, ...).
    Other,
}

/// The result gathered so far: the columns and rows of the latest result
/// set, and whether column metadata has been seen.
pub struct QueryState {
    columns: Vec<ColumnMeta>,
    rows: Vec<Vec<SqlValue>>,
    has_metadata: bool,
}

/// The abstract content of a [`QueryState`].
pub ghost struct QueryView {
    pub columns: Seq<ColumnMeta>,
    pub rows: Seq<Seq<ValueView>>,
    pub has_metadata: bool,
}

impl View for QueryState {
    type V = QueryView;

    closed spec fn view(&self) -> QueryView {
        QueryView {
            columns: self.columns@,
            rows: Seq::new(self.rows@.len(), |k: int| views(self.rows@[k]@)),
            has_metadata: self.has_metadata,
        }
    }
}

/// What the reader does after a token.
pub enum QueryStep {
    /// Go on with the next token.
    Continue,
    /// The response is complete.
    Finished,
    /// The server flagged an error in a DONE, DONEPROC or DONEINPROC token.
    QueryFailed(String),
    /// The server sent an ERROR token.
    Refused(ServerError),
    /// A row could not be read.
    Failed(Error),
}

/// The state after a row's values are read (or the error that stops it).
pub open spec fn after_row(s: QueryView, values: Result<Seq<ValueView>, Seq<char>>) -> Result<
    QueryView,
    Seq<char>,
> {
    match values {
        Ok(vs) => Ok(QueryView { rows: s.rows.push(vs), ..s }),
        Err(m) => Err(m),
    }
}

/// Whether step result `r` and final state `after` are what a row token
/// gives from `before`: rows before any metadata are passed over.
pub open spec fn row_step_ok(
    before: QueryView,
    after: QueryView,
    r: QueryStep,
    values: Result<Seq<ValueView>, Seq<char>>,
) -> bool {
    if !before.has_metadata {
        r is Continue && after == before
    } else {
        match after_row(before, values) {
            Ok(s) => r is Continue && after == s,
            Err(m) => after == before && (r matches QueryStep::Failed(Error::Protocol(t)) && t@ == m),
        }
    }
}

/// Whether `r` is a DONE-family outcome: `msg` when the error flag is set,
/// else `ok`.
pub open spec fn done_ok(r: QueryStep, error: bool, msg: Seq<char>, finished: bool) -> bool {
    if error {
        r matches QueryStep::QueryFailed(m) && m@ == msg
    } else if finished {
        r is Finished
    } else {
        r is Continue
    }
}

impl QueryState {
    /// Nothing read yet.
    pub fn new() -> (r: Self)
        ensures
            r@ == (QueryView { columns: Seq::empty(), rows: Seq::empty(), has_metadata: false }),
    {
        let r = QueryState { columns: Vec::new(), rows: Vec::new(), has_metadata: false };
        assert(r@.rows =~= Seq::<Seq<ValueView>>::empty());
        r
    }

    /// The columns of the latest result set.
    pub fn columns(&self) -> (r: &Vec<ColumnMeta>)
        ensures
            r@ == self@.columns,
    {
        &self.columns
    }

    /// The rows of the latest result set, in the order they came.
    pub fn into_rows(self) -> (r: Vec<Vec<SqlValue>>)
        ensures
            r@.len() == self@.rows.len(),
            forall|k: int| 0 <= k < r@.len() ==> views(#[trigger] r@[k]@) == self@.rows[k],
    {
        self.rows
    }

    fn push_row(&mut self, row: Vec<SqlValue>)
        ensures
            final(self)@ == (QueryView { rows: old(self)@.rows.push(views(row@)), ..old(self)@ }),
    {
        self.rows.push(row);
        assert(self@.rows =~= old(self)@.rows.push(views(row@)));
    }

    /// Handles one token: COLMETADATA starts a new result set (dropping the
    /// rows of the one before); ROW and NBCROW add a row once metadata has
    /// been seen; ERROR refuses the query; DONE, DONEPROC and DONEINPROC
    /// fail when their error flag is set, and DONE without more results
    /// ends the response; ENVCHANGE moves the transaction descriptor; other
    /// tokens are passed over.
    pub fn step(&mut self, token: QueryToken, descriptor: &mut u64) -> (r: QueryStep)
        ensures
            *final(descriptor) == (match token {
                QueryToken::EnvChange(e) => descriptor_after(e, *old(descriptor)),
                _ => *old(descriptor),
            }),
            match token {
                QueryToken::ColMetaData(cols) => r is Continue && final(self)@ == (QueryView {
                    columns: cols@,
                    rows: Seq::empty(),
                    has_metadata: true,
                }),
                QueryToken::Row(data) => row_step_ok(
                    old(self)@,
                    final(self)@,
                    r,
                    row_from(old(self)@.columns, 0, data@),
                ),
                QueryToken::NbcRow { null_bitmap, data } => row_step_ok(
                    old(self)@,
                    final(self)@,
                    r,
                    nbc_row_from(old(self)@.columns, null_bitmap@, 0, data@),
                ),
                QueryToken::Error(m) => final(self)@ == old(self)@ && (r matches QueryStep::Refused(e)
                    && reports(e, m)),
                QueryToken::Done { error, more } => final(self)@ == old(self)@ && done_ok(
                    r,
                    error,
                    "query failed (server set error flag in DONE token)"@,
                    !more,
                ),
                QueryToken::DoneProc { error } => final(self)@ == old(self)@ && done_ok(
                    r,
                    error,
                    "stored procedure failed (server set error flag in DONEPROC token)"@,
                    false,
                ),
                QueryToken::DoneInProc { error } => final(self)@ == old(self)@ && done_ok(
                    r,
                    error,
                    "statement within procedure failed (error flag in DONEINPROC token)"@,
                    false,
                ),
                _ => r is Continue && final(self)@ == old(self)@,
            },
    {
        match token {
            QueryToken::ColMetaData(cols) => {
                self.columns = cols;
                self.rows = Vec::new();
                self.has_metadata = true;
                assert(self@.rows =~= Seq::<Seq<ValueView>>::empty());
                QueryStep::Continue
            },
            QueryToken::Row(data) => {
                if !self.has_metadata {
                    return QueryStep::Continue;
                }
                match convert_raw_row(data.as_slice(), self.columns.as_slice()) {
                    Ok(row) => {
                        self.push_row(row);
                        QueryStep::Continue
                    },
                    Err(e) => QueryStep::Failed(e),
                }
            },
            QueryToken::NbcRow { null_bitmap, data } => {
                if !self.has_metadata {
                    return QueryStep::Continue;
                }
                match convert_nbc_row(null_bitmap.as_slice(), data.as_slice(), self.columns.as_slice()) {
                    Ok(row) => {
                        self.push_row(row);
                        QueryStep::Continue
                    },
                    Err(e) => QueryStep::Failed(e),
                }
            },
            QueryToken::Error(m) => QueryStep::Refused(server_error(m)),
            QueryToken::Done { error, more } => {
                if error {
                    QueryStep::QueryFailed(owned("query failed (server set error flag in DONE token)"))
                } else if !more {
                    QueryStep::Finished
                } else {
                    QueryStep::Continue
                }
            },
            QueryToken::DoneProc { error } => {
                if error {
                    QueryStep::QueryFailed(
                        owned("stored procedure failed (server set error flag in DONEPROC token)"),
                    )
                } else {
                    QueryStep::Continue
                }
            },
            QueryToken::DoneInProc { error } => {
                if error {
                    QueryStep::QueryFailed(
                        owned("statement within procedure failed (error flag in DONEINPROC token)"),
                    )
                } else {
                    QueryStep::Continue
                }
            },
            QueryToken::EnvChange(e) => {
                process_transaction_env_change(&e, descriptor);
                QueryStep::Continue
            },
            QueryToken::Other => QueryStep::Continue,
        }
    }
}

// ---------------------------------------------------------------------------
// Several result sets
// ---------------------------------------------------------------------------

/// One result set: its columns and rows.
pub struct ResultSet {
    pub columns: Vec<ColumnMeta>,
    pub rows: Vec<Vec<SqlValue>>,
}

/// The abstract content of rows.
pub open spec fn rows_view(rows: Seq<Vec<SqlValue>>) -> Seq<Seq<ValueView>> {
    Seq::new(rows.len(), |k: int| views(rows[k]@))
}

/// The abstract content of a [`ResultSet`].
pub open spec fn set_view(r: ResultSet) -> (Seq<ColumnMeta>, Seq<Seq<ValueView>>) {
    (r.columns@, rows_view(r.rows@))
}

/// The result sets gathered from a response that may carry several: those
/// completed, and the one being read.
pub struct MultiResultState {
    sets: Vec<ResultSet>,
    columns: Vec<ColumnMeta>,
    rows: Vec<Vec<SqlValue>>,
    has_metadata: bool,
}

/// The abstract content of a [`MultiResultState`].
pub ghost struct MultiView {
    pub sets: Seq<(Seq<ColumnMeta>, Seq<Seq<ValueView>>)>,
    pub columns: Seq<ColumnMeta>,
    pub rows: Seq<Seq<ValueView>>,
    pub has_metadata: bool,
}

impl View for MultiResultState {
    type V = MultiView;

    closed spec fn view(&self) -> MultiView {
        MultiView {
            sets: Seq::new(self.sets@.len(), |k: int| set_view(self.sets@[k])),
            columns: self.columns@,
            rows: rows_view(self.rows@),
            has_metadata: self.has_metadata,
        }
    }
}

/// The current result set closed, when it has columns: it joins the
/// completed ones and a new one starts empty.
pub open spec fn close_current(s: MultiView) -> MultiView {
    if s.columns.len() > 0 {
        MultiView { sets: s.sets.push((s.columns, s.rows)), columns: Seq::empty(), rows: Seq::empty(), ..s }
    } else {
        s
    }
}

/// The state after DONE or DONEINPROC without an error: the current result
/// set closed, and its metadata forgotten with it.
pub open spec fn after_done(s: MultiView) -> MultiView {
    if s.columns.len() > 0 {
        MultiView { has_metadata: false, ..close_current(s) }
    } else {
        s
    }
}

/// The state after a row's values are read (or the error that stops it).
pub open spec fn after_multi_row(s: MultiView, values: Result<Seq<ValueView>, Seq<char>>) -> Result<
    MultiView,
    Seq<char>,
> {
    match values {
        Ok(vs) => Ok(MultiView { rows: s.rows.push(vs), ..s }),
        Err(m) => Err(m),
    }
}

/// Whether step result `r` and final state `after` are what a row token
/// gives from `before`: rows before any metadata are passed over.
pub open spec fn multi_row_ok(
    before: MultiView,
    after: MultiView,
    r: QueryStep,
    values: Result<Seq<ValueView>, Seq<char>>,
) -> bool {
    if !before.has_metadata {
        r is Continue && after == before
    } else {
        match after_multi_row(before, values) {
            Ok(s) => r is Continue && after == s,
            Err(m) => after == before && (r matches QueryStep::Failed(Error::Protocol(t)) && t@ == m),
        }
    }
}

/// The result sets a finished response gives: the completed ones, and the
/// current one when it has columns.
pub open spec fn final_sets(s: MultiView) -> Seq<(Seq<ColumnMeta>, Seq<Seq<ValueView>>)> {
    close_current(s).sets
}

impl MultiResultState {
    /// Nothing read yet.
    pub fn new() -> (r: Self)
        ensures
            r@ == (MultiView {
                sets: Seq::empty(),
                columns: Seq::empty(),
                rows: Seq::empty(),
                has_metadata: false,
            }),
    {
        let r = MultiResultState { sets: Vec::new(), columns: Vec::new(), rows: Vec::new(), has_metadata: false };
        assert(r@.sets =~= Seq::<(Seq<ColumnMeta>, Seq<Seq<ValueView>>)>::empty());
        assert(r@.rows =~= Seq::<Seq<ValueView>>::empty());
        r
    }

    fn close(&mut self)
        ensures
            final(self)@ == close_current(old(self)@),
    {
        if self.columns.len() > 0 {
            let mut cols: Vec<ColumnMeta> = Vec::new();
            let mut rows: Vec<Vec<SqlValue>> = Vec::new();
            std::mem::swap(&mut cols, &mut self.columns);
            std::mem::swap(&mut rows, &mut self.rows);
            self.sets.push(ResultSet { columns: cols, rows });
            assert(self@.sets =~= old(self)@.sets.push((old(self)@.columns, old(self)@.rows)));
            assert(self@.rows =~= Seq::<Seq<ValueView>>::empty());
        }
    }

    fn push_row(&mut self, row: Vec<SqlValue>)
        ensures
            final(self)@ == (MultiView { rows: old(self)@.rows.push(views(row@)), ..old(self)@ }),
    {
        self.rows.push(row);
        assert(self@.rows =~= old(self)@.rows.push(views(row@)));
    }

    /// Handles one token: COLMETADATA closes the current result set and
    /// starts another; ROW and NBCROW add a row once metadata has been
    /// seen; ERROR refuses the query; DONE and DONEINPROC close the current
    /// result set, and DONE without more results ends the response; a set
    /// error flag fails the query; other tokens are passed over.
    pub fn step(&mut self, token: QueryToken) -> (r: QueryStep)
        ensures
            match token {
                QueryToken::ColMetaData(cols) => r is Continue && final(self)@ == (MultiView {
                    columns: cols@,
                    has_metadata: true,
                    ..close_current(old(self)@)
                }),
                QueryToken::Row(data) => multi_row_ok(
                    old(self)@,
                    final(self)@,
                    r,
                    row_from(old(self)@.columns, 0, data@),
                ),
                QueryToken::NbcRow { null_bitmap, data } => multi_row_ok(
                    old(self)@,
                    final(self)@,
                    r,
                    nbc_row_from(old(self)@.columns, null_bitmap@, 0, data@),
                ),
                QueryToken::Error(m) => final(self)@ == old(self)@ && (r matches QueryStep::Refused(e)
                    && reports(e, m)),
                QueryToken::Done { error, more } => if error {
                    final(self)@ == old(self)@ && done_ok(
                        r,
                        true,
                        "multi-result query failed (server set error flag in DONE token)"@,
                        false,
                    )
                } else {
                    final(self)@ == after_done(old(self)@) && done_ok(r, false, Seq::empty(), !more)
                },
                QueryToken::DoneInProc { error } => if error {
                    final(self)@ == old(self)@ && done_ok(
                        r,
                        true,
                        "statement within procedure failed (error flag in DONEINPROC token)"@,
                        false,
                    )
                } else {
                    final(self)@ == after_done(old(self)@) && r is Continue
                },
                QueryToken::DoneProc { error } => final(self)@ == old(self)@ && done_ok(
                    r,
                    error,
                    "stored procedure failed (server set error flag in DONEPROC token)"@,
                    false,
                ),
                _ => r is Continue && final(self)@ == old(self)@,
            },
    {
        match token {
            QueryToken::ColMetaData(cols) => {
                self.close();
                self.columns = cols;
                self.has_metadata = true;
                QueryStep::Continue
            },
            QueryToken::Row(data) => {
                if !self.has_metadata {
                    return QueryStep::Continue;
                }
                match convert_raw_row(data.as_slice(), self.columns.as_slice()) {
                    Ok(row) => {
                        self.push_row(row);
                        QueryStep::Continue
                    },
                    Err(e) => QueryStep::Failed(e),
                }
            },
            QueryToken::NbcRow { null_bitmap, data } => {
                if !self.has_metadata {
                    return QueryStep::Continue;
                }
                match convert_nbc_row(null_bitmap.as_slice(), data.as_slice(), self.columns.as_slice()) {
                    Ok(row) => {
                        self.push_row(row);
                        QueryStep::Continue
                    },
                    Err(e) => QueryStep::Failed(e),
                }
            },
            QueryToken::Error(m) => QueryStep::Refused(server_error(m)),
            QueryToken::Done { error, more } => {
                if error {
                    return QueryStep::QueryFailed(
                        owned("multi-result query failed (server set error flag in DONE token)"),
                    );
                }
                if self.columns.len() > 0 {
                    self.close();
                    self.has_metadata = false;
                }
                if !more {
                    QueryStep::Finished
                } else {
                    QueryStep::Continue
                }
            },
            QueryToken::DoneInProc { error } => {
                if error {
                    return QueryStep::QueryFailed(
                        owned("statement within procedure failed (error flag in DONEINPROC token)"),
                    );
                }
                if self.columns.len() > 0 {
                    self.close();
                    self.has_metadata = false;
                }
                QueryStep::Continue
            },
            QueryToken::DoneProc { error } => {
                if error {
                    QueryStep::QueryFailed(
                        owned("stored procedure failed (server set error flag in DONEPROC token)"),
                    )
                } else {
                    QueryStep::Continue
                }
            },
            _ => QueryStep::Continue,
        }
    }

    /// The result sets of the response: the completed ones, then the
    /// current one when it has columns.
    pub fn finish(self) -> (r: Vec<ResultSet>)
        ensures
            r@.len() == final_sets(self@).len(),
            forall|k: int| 0 <= k < r@.len() ==> set_view(#[trigger] r@[k]) == final_sets(self@)[k],
    {
        let mut s = self;
        s.close();
        let MultiResultState { sets, .. } = s;
        sets
    }
}

// ---------------------------------------------------------------------------
// Stored procedure results
// ---------------------------------------------------------------------------

/// A token of a stored procedure's response.
pub enum ProcToken {
    /// COLMETADATA.
    ColMetaData(Vec<ColumnMeta>),
    /// ROW.
    Row(Vec<u8>),
    /// NBCROW.
    NbcRow { null_bitmap: Vec<u8>, data: Vec<u8> },
    /// DONEINPROC, with its error and count flags and its row count.
    DoneInProc { error: bool, count: bool, row_count: u64 },
    /// DONEPROC, with its error, count and more flags and its row count.
    DoneProc { error: bool, count: bool, more: bool, row_count: u64 },
    /// RETURNVALUE: an output parameter, its type and the bytes of its value.
    ReturnValue { param_name: String, column: ColumnMeta, value: Vec<u8> },
    /// RETURNSTATUS.
    ReturnStatus(i32),
    /// ERROR.
    Error(ServerMessage),
    /// ENVCHANGE.
    EnvChange(EnvChange),
    /// Any other token.
    Other,
}

/// An output parameter of a procedure call.
pub struct OutputParam {
    pub name: String,
    pub value: SqlValue,
}

/// What a procedure call gives back.
pub struct ProcedureResult {
    /// The value of RETURN.
    pub return_value: i32,
    /// The rows counted by DONEINPROC and DONEPROC tokens.
    pub rows_affected: u64,
    /// The output parameters, in the order they came.
    pub output_params: Vec<OutputParam>,
    /// The result sets, in the order they came.
    pub result_sets: Vec<ResultSet>,
}

/// The result of a procedure call gathered so far.
pub struct ProcedureState {
    sets: MultiResultState,
    return_value: i32,
    rows_affected: u64,
    params: Vec<OutputParam>,
}

/// The abstract content of a [`ProcedureState`].
pub ghost struct ProcView {
    pub sets: MultiView,
    pub return_value: i32,
    pub rows_affected: int,
    pub params: Seq<(Seq<char>, ValueView)>,
}

impl View for ProcedureState {
    type V = ProcView;

    closed spec fn view(&self) -> ProcView {
        ProcView {
            sets: self.sets@,
            return_value: self.return_value,
            rows_affected: self.rows_affected as int,
            params: Seq::new(self.params@.len(), |k: int| (self.params@[k].name@, self.params@[k].value@)),
        }
    }
}

/// The rows a DONE-family token adds to the count.
pub open spec fn counted(count: bool, row_count: u64) -> int {
    if count {
        row_count as int
    } else {
        0
    }
}

/// Whether the count of a DONE-family token fits beside those before.
pub open spec fn count_fits(s: ProcView, t: ProcToken) -> bool {
    match t {
        ProcToken::DoneInProc { count, row_count, .. } => s.rows_affected + counted(count, row_count)
            <= u64::MAX,
        ProcToken::DoneProc { count, row_count, .. } => s.rows_affected + counted(count, row_count)
            <= u64::MAX,
        _ => true,
    }
}

impl ProcedureState {
    /// Nothing read yet: return value 0, no rows, no parameters.
    pub fn new() -> (r: Self)
        ensures
            r@.sets == (MultiView {
                sets: Seq::empty(),
                columns: Seq::empty(),
                rows: Seq::empty(),
                has_metadata: false,
            }),
            r@.return_value == 0,
            r@.rows_affected == 0,
            r@.params == Seq::<(Seq<char>, ValueView)>::empty(),
    {
        let r = ProcedureState { sets: MultiResultState::new(), return_value: 0, rows_affected: 0, params: Vec::new() };
        assert(r@.params =~= Seq::<(Seq<char>, ValueView)>::empty());
        r
    }

    /// Handles one token.  Result sets are gathered as for several result
    /// sets, except that DONEPROC closes the current one without forgetting
    /// its metadata; DONEINPROC and DONEPROC add their counted rows before
    /// an error flag fails the call, and DONEPROC without more results ends
    /// the response; RETURNVALUE adds an output parameter read by its type;
    /// RETURNSTATUS sets the return value; ENVCHANGE moves the transaction
    /// descriptor.
    pub fn step(&mut self, token: ProcToken, descriptor: &mut u64) -> (r: QueryStep)
        requires
            count_fits(old(self)@, token),
        ensures
            *final(descriptor) == (match token {
                ProcToken::EnvChange(e) => descriptor_after(e, *old(descriptor)),
                _ => *old(descriptor),
            }),
            match token {
                ProcToken::ColMetaData(cols) => r is Continue && final(self)@ == (ProcView {
                    sets: MultiView { columns: cols@, has_metadata: true, ..close_current(old(self)@.sets) },
                    ..old(self)@
                }),
                ProcToken::Row(data) => final(self)@.return_value == old(self)@.return_value
                    && final(self)@.rows_affected == old(self)@.rows_affected && final(self)@.params
                    == old(self)@.params && multi_row_ok(
                    old(self)@.sets,
                    final(self)@.sets,
                    r,
                    row_from(old(self)@.sets.columns, 0, data@),
                ),
                ProcToken::NbcRow { null_bitmap, data } => final(self)@.return_value
                    == old(self)@.return_value && final(self)@.rows_affected == old(self)@.rows_affected
                    && final(self)@.params == old(self)@.params && multi_row_ok(
                    old(self)@.sets,
                    final(self)@.sets,
                    r,
                    nbc_row_from(old(self)@.sets.columns, null_bitmap@, 0, data@),
                ),
                ProcToken::DoneInProc { error, count, row_count } => final(self)@ == (ProcView {
                    sets: after_done(old(self)@.sets),
                    rows_affected: old(self)@.rows_affected + counted(count, row_count),
                    ..old(self)@
                }) && done_ok(
                    r,
                    error,
                    "statement within procedure failed (error flag in DONEINPROC token)"@,
                    false,
                ),
                ProcToken::DoneProc { error, count, more, row_count } => final(self)@ == (ProcView {
                    sets: close_current(old(self)@.sets),
                    rows_affected: old(self)@.rows_affected + counted(count, row_count),
                    ..old(self)@
                }) && done_ok(
                    r,
                    error,
                    "stored procedure failed (server set error flag in DONEPROC token)"@,
                    !more,
                ),
                ProcToken::ReturnValue { param_name, column, value } => match column_value_spec(
                    column,
                    value@,
                ) {
                    Ok((v, _)) => r is Continue && final(self)@ == (ProcView {
                        params: old(self)@.params.push((param_name@, v)),
                        ..old(self)@
                    }),
                    Err(m) => final(self)@ == old(self)@ && (r matches QueryStep::Failed(Error::Protocol(t))
                        && t@ == m),
                },
                ProcToken::ReturnStatus(v) => r is Continue && final(self)@ == (ProcView {
                    return_value: v,
                    ..old(self)@
                }),
                ProcToken::Error(m) => final(self)@ == old(self)@ && (r matches QueryStep::Refused(e)
                    && reports(e, m)),
                _ => r is Continue && final(self)@ == old(self)@,
            },
    {
        match token {
            ProcToken::ColMetaData(cols) => self.sets.step(QueryToken::ColMetaData(cols)),
            ProcToken::Row(data) => self.sets.step(QueryToken::Row(data)),
            ProcToken::NbcRow { null_bitmap, data } => self.sets.step(QueryToken::NbcRow { null_bitmap, data }),
            ProcToken::DoneInProc { error, count, row_count } => {
                self.sets.step(QueryToken::DoneInProc { error: false });
                if count {
                    self.rows_affected = self.rows_affected + row_count;
                }
                if error {
                    QueryStep::QueryFailed(
                        owned("statement within procedure failed (error flag in DONEINPROC token)"),
                    )
                } else {
                    QueryStep::Continue
                }
            },
            ProcToken::DoneProc { error, count, more, row_count } => {
                self.sets.close();
                if count {
                    self.rows_affected = self.rows_affected + row_count;
                }
                if error {
                    QueryStep::QueryFailed(
                        owned("stored procedure failed (server set error flag in DONEPROC token)"),
                    )
                } else if !more {
                    QueryStep::Finished
                } else {
                    QueryStep::Continue
                }
            },
            ProcToken::ReturnValue { param_name, column, value } => {
                let mut buf: &[u8] = value.as_slice();
                match parse_column_value(&mut buf, &column) {
                    Ok(v) => {
                        let ghost before = self@;
                        self.params.push(OutputParam { name: param_name, value: v });
                        assert(self@.params =~= before.params.push((param_name@, v@)));
                        QueryStep::Continue
                    },
                    Err(e) => QueryStep::Failed(e),
                }
            },
            ProcToken::ReturnStatus(v) => {
                self.return_value = v;
                QueryStep::Continue
            },
            ProcToken::Error(m) => QueryStep::Refused(server_error(m)),
            ProcToken::EnvChange(e) => {
                process_transaction_env_change(&e, descriptor);
                QueryStep::Continue
            },
            ProcToken::Other => QueryStep::Continue,
        }
    }

    /// The result of the call: the return value, the counted rows, the
    /// output parameters, and the result sets (the current one included
    /// when it has columns).
    pub fn finish(self) -> (r: ProcedureResult)
        ensures
            r.return_value == self@.return_value,
            r.rows_affected == self@.rows_affected,
            r.output_params@.len() == self@.params.len(),
            forall|k: int|
                0 <= k < r.output_params@.len() ==> (#[trigger] r.output_params@[k]).name@
                    == self@.params[k].0 && r.output_params@[k].value@ == self@.params[k].1,
            r.result_sets@.len() == final_sets(self@.sets).len(),
            forall|k: int|
                0 <= k < r.result_sets@.len() ==> set_view(#[trigger] r.result_sets@[k]) == final_sets(
                    self@.sets,
                )[k],
    {
        let ProcedureState { sets, return_value, rows_affected, params } = self;
        ProcedureResult { return_value, rows_affected, output_params: params, result_sets: sets.finish() }
    }
}

} // verus!

use mssql_client::column_parser::ColumnMeta;
use mssql_client::error::Error;
use mssql_client::negotiation::ServerMessage;
use mssql_client::response::{MultiResultState, ProcToken, ProcedureState, QueryState, QueryStep, QueryToken};
use mssql_client::row::{convert_nbc_row, convert_raw_row};
use mssql_client::session::EnvChange;
use mssql_client::value::SqlValue;

fn intn() -> ColumnMeta {
    ColumnMeta { type_id: 0x26, max_length: Some(4), precision: None, scale: None, collation: None }
}

fn nvarchar() -> ColumnMeta {
    ColumnMeta { type_id: 0xE7, max_length: Some(20), precision: None, scale: None, collation: None }
}

#[test]
fn raw_row_reads_each_column_in_turn() {
    let data = [4, 7, 0, 0, 0, 4, 0, b'h', 0, b'i', 0];
    let row = convert_raw_row(&data, &[intn(), nvarchar()]).unwrap();
    assert_eq!(row, vec![SqlValue::Int(7), SqlValue::String("hi".to_string())]);
}

#[test]
fn raw_row_stops_at_a_bad_value() {
    let data = [3, 7, 0, 0];
    let err = convert_raw_row(&data, &[intn(), intn()]).unwrap_err();
    assert_eq!(err, Error::Protocol("invalid IntN length: 3".to_string()));
}

#[test]
fn nbc_row_skips_marked_columns() {
    // Column 0 is NULL by the bitmap; column 1 is read from the data.
    let data = [4, 9, 0, 0, 0];
    let row = convert_nbc_row(&[0b0000_0001], &data, &[intn(), intn()]).unwrap();
    assert_eq!(row, vec![SqlValue::Null, SqlValue::Int(9)]);
}

#[test]
fn query_response_keeps_the_last_result_set() {
    let mut d: u64 = 0;
    let mut st = QueryState::new();
    // A row before any metadata is passed over.
    assert!(matches!(st.step(QueryToken::Row(vec![4, 1, 0, 0, 0]), &mut d), QueryStep::Continue));
    assert!(matches!(st.step(QueryToken::ColMetaData(vec![intn()]), &mut d), QueryStep::Continue));
    st.step(QueryToken::Row(vec![4, 1, 0, 0, 0]), &mut d);
    assert!(matches!(st.step(QueryToken::Done { error: false, more: true }, &mut d), QueryStep::Continue));
    // The second result set replaces the first.
    st.step(QueryToken::ColMetaData(vec![intn()]), &mut d);
    st.step(QueryToken::Row(vec![4, 2, 0, 0, 0]), &mut d);
    st.step(QueryToken::NbcRow { null_bitmap: vec![1], data: vec![] }, &mut d);
    assert!(matches!(st.step(QueryToken::Other, &mut d), QueryStep::Continue));
    assert!(matches!(st.step(QueryToken::Done { error: false, more: false }, &mut d), QueryStep::Finished));
    assert_eq!(st.columns().len(), 1);
    assert_eq!(st.into_rows(), vec![vec![SqlValue::Int(2)], vec![SqlValue::Null]]);
}

#[test]
fn query_response_failures() {
    let mut d: u64 = 0;
    let mut st = QueryState::new();
    match st.step(QueryToken::Done { error: true, more: false }, &mut d) {
        QueryStep::QueryFailed(m) => assert_eq!(m, "query failed (server set error flag in DONE token)"),
        _ => panic!("expected a failure"),
    }
    match st.step(QueryToken::DoneProc { error: true }, &mut d) {
        QueryStep::QueryFailed(m) => {
            assert_eq!(m, "stored procedure failed (server set error flag in DONEPROC token)")
        }
        _ => panic!("expected a failure"),
    }
    match st.step(QueryToken::DoneInProc { error: true }, &mut d) {
        QueryStep::QueryFailed(m) => {
            assert_eq!(m, "statement within procedure failed (error flag in DONEINPROC token)")
        }
        _ => panic!("expected a failure"),
    }
    assert!(matches!(st.step(QueryToken::DoneProc { error: false }, &mut d), QueryStep::Continue));
    st.step(QueryToken::ColMetaData(vec![intn()]), &mut d);
    match st.step(QueryToken::Row(vec![5, 0, 0, 0, 0, 0]), &mut d) {
        QueryStep::Failed(e) => assert_eq!(e, Error::Protocol("invalid IntN length: 5".to_string())),
        _ => panic!("expected a failure"),
    }
    let msg = ServerMessage {
        number: 208,
        state: 1,
        class: 16,
        message: "Invalid object name 'missing'.".to_string(),
        server: String::new(),
        procedure: "p".to_string(),
        line: 3,
    };
    match st.step(QueryToken::Error(msg), &mut d) {
        QueryStep::Refused(e) => {
            assert_eq!(e.number, 208);
            assert_eq!(e.server, None);
            assert_eq!(e.procedure.as_deref(), Some("p"));
            assert_eq!(e.line, 3);
        }
        _ => panic!("expected a refusal"),
    }
    assert!(st.into_rows().is_empty());
}

#[test]
fn multi_result_response_keeps_every_result_set() {
    let mut st = MultiResultState::new();
    st.step(QueryToken::ColMetaData(vec![intn()]));
    st.step(QueryToken::Row(vec![4, 1, 0, 0, 0]));
    assert!(matches!(st.step(QueryToken::Done { error: false, more: true }), QueryStep::Continue));
    // After DONE the metadata is gone: a stray row is passed over.
    st.step(QueryToken::Row(vec![4, 9, 0, 0, 0]));
    st.step(QueryToken::ColMetaData(vec![intn(), nvarchar()]));
    st.step(QueryToken::Row(vec![4, 2, 0, 0, 0, 2, 0, b'x', 0]));
    assert!(matches!(st.step(QueryToken::DoneInProc { error: false }), QueryStep::Continue));
    st.step(QueryToken::ColMetaData(vec![intn()]));
    st.step(QueryToken::NbcRow { null_bitmap: vec![1], data: vec![] });
    // The last result set has no DONE: it is kept by `finish`.
    let sets = st.finish();
    assert_eq!(sets.len(), 3);
    assert_eq!(sets[0].rows, vec![vec![SqlValue::Int(1)]]);
    assert_eq!(sets[1].columns.len(), 2);
    assert_eq!(sets[1].rows, vec![vec![SqlValue::Int(2), SqlValue::String("x".to_string())]]);
    assert_eq!(sets[2].rows, vec![vec![SqlValue::Null]]);
}

#[test]
fn multi_result_response_failures() {
    let mut st = MultiResultState::new();
    match st.step(QueryToken::Done { error: true, more: false }) {
        QueryStep::QueryFailed(m) => {
            assert_eq!(m, "multi-result query failed (server set error flag in DONE token)")
        }
        _ => panic!("expected a failure"),
    }
    assert!(matches!(st.step(QueryToken::Done { error: false, more: false }), QueryStep::Finished));
    assert!(st.finish().is_empty());
}

#[test]
fn procedure_result_gathers_sets_counts_and_parameters() {
    let mut d: u64 = 0;
    let mut st = ProcedureState::new();
    st.step(ProcToken::ColMetaData(vec![intn()]), &mut d);
    st.step(ProcToken::Row(vec![4, 5, 0, 0, 0]), &mut d);
    assert!(matches!(
        st.step(ProcToken::DoneInProc { error: false, count: true, row_count: 1 }, &mut d),
        QueryStep::Continue
    ));
    // A count flag that is not set adds nothing.
    st.step(ProcToken::DoneInProc { error: false, count: false, row_count: 40 }, &mut d);
    assert!(matches!(
        st.step(ProcToken::ReturnValue { param_name: "@out".to_string(), column: intn(), value: vec![4, 42, 0, 0, 0] }, &mut d),
        QueryStep::Continue
    ));
    assert!(matches!(st.step(ProcToken::ReturnStatus(3), &mut d), QueryStep::Continue));
    assert!(matches!(
        st.step(ProcToken::DoneProc { error: false, count: true, more: false, row_count: 2 }, &mut d),
        QueryStep::Finished
    ));
    let result = st.finish();
    assert_eq!(result.return_value, 3);
    assert_eq!(result.rows_affected, 3);
    assert_eq!(result.output_params.len(), 1);
    assert_eq!(result.output_params[0].name, "@out");
    assert_eq!(result.output_params[0].value, SqlValue::Int(42));
    assert_eq!(result.result_sets.len(), 1);
    assert_eq!(result.result_sets[0].rows, vec![vec![SqlValue::Int(5)]]);
}

#[test]
fn procedure_result_failures() {
    let mut d: u64 = 0;
    let mut st = ProcedureState::new();
    match st.step(ProcToken::DoneInProc { error: true, count: true, row_count: 7 }, &mut d) {
        QueryStep::QueryFailed(m) => {
            assert_eq!(m, "statement within procedure failed (error flag in DONEINPROC token)")
        }
        _ => panic!("expected a failure"),
    }
    match st.step(ProcToken::DoneProc { error: true, count: false, more: false, row_count: 0 }, &mut d) {
        QueryStep::QueryFailed(m) => {
            assert_eq!(m, "stored procedure failed (server set error flag in DONEPROC token)")
        }
        _ => panic!("expected a failure"),
    }
    match st.step(ProcToken::ReturnValue { param_name: "@p".to_string(), column: intn(), value: vec![3, 0, 0, 0] }, &mut d) {
        QueryStep::Failed(e) => assert_eq!(e, Error::Protocol("invalid IntN length: 3".to_string())),
        _ => panic!("expected a failure"),
    }
    let result = st.finish();
    // The rows were counted before the error flag failed the call.
    assert_eq!(result.rows_affected, 7);
    assert!(result.output_params.is_empty());
}

#[test]
fn responses_track_the_transaction_descriptor() {
    let mut d: u64 = 0;
    let mut st = QueryState::new();
    let begin = EnvChange::BeginTransaction(vec![1, 2, 0, 0, 0, 0, 0, 0]);
    assert!(matches!(st.step(QueryToken::EnvChange(begin), &mut d), QueryStep::Continue));
    assert_eq!(d, 0x0201);
    let mut proc = ProcedureState::new();
    proc.step(ProcToken::EnvChange(EnvChange::CommitTransaction), &mut d);
    assert_eq!(d, 0);
}

#[test]
fn nbc_row_with_empty_bitmap_reads_as_row() {
    let data = [4, 3, 0, 0, 0, 2, 0, b'z', 0];
    let cols = [intn(), nvarchar()];
    assert_eq!(convert_nbc_row(&[0], &data, &cols), convert_raw_row(&data, &cols));
    assert_eq!(convert_nbc_row(&[], &data, &cols), convert_raw_row(&data, &cols));
}

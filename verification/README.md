# mssql_client

The verified core of an SQL Server (TDS) client driver, written in Verus.

`src/` holds the logic, each function with a contract that Verus proves:

- `config` — ADO.NET connection strings (quoting, keyword aliases, boolean
  and numeric values) and the client configuration with its builders.
- `bulk` — bulk-copy column definitions, SQL type strings and the
  `INSERT BULK` statement.
- `bulk_insert` — the bulk load stream: COLMETADATA, ROW and DONE tokens and
  their packets.
- `colmetadata` — a reader of COLMETADATA tokens by the TDS rules, and the
  law that the bulk loader's token reads back to its columns.
- `column_parser` — reading integer, bit, floating-point, binary, Unicode
  text, GUID and PLP values from a row.
- `column_dates`, `column_money`, `column_time`, `column_decimal`,
  `column_text`, `column_variant` — reading dates, times, date-times,
  money, decimals and code-page text, and the SQL_VARIANT values built from
  them; `column_value` reads a value of any column type.
- `row`, `response` — the values of ROW and NBCROW tokens, and what each
  token of a query's, a batch's or a procedure's response does to the
  result being gathered.
- `negotiation` — the encryption level agreed in PRELOGIN and the login
  response's tokens.
- `column_decrypt` — turning decrypted Always Encrypted plaintext back into
  a value.
- `change_tracking` — Change Tracking queries and helper statements.
- `browser` — the SQL Server Browser (SSRP) query and answer.
- `session` — ENVCHANGE handling, savepoint statements, login checks.
- `blob` — a reader over a binary value held in memory.
- `calendar`, `decimal` — what the above rely on of `chrono` dates and
  times and of `rust_decimal` numbers.
- `wire`, `text`, `value`, `error`, `validation` — byte and text helpers,
  values, errors and identifier rules shared by the above.

Laws that relate several functions (what a parser reads back of what the
bulk writer writes, that packets carry the buffer unchanged, that quoted
connection-string values come back exactly, ...) are public proof functions
named `law_*`.

`app/` holds what needs I/O or traits of other crates: the UDP query to the
Browser service, `AsyncRead` over a blob reader, a displayable error, and
the conversion of a decrypted DATETIMEOFFSET to `chrono`'s offset type.

//! Bulk copy (BCP) column definitions, SQL type parsing and the
//! `INSERT BULK` statement builder.
use vstd::prelude::*;
use crate::error::{owned, Error, TypeError};
use crate::text::{
    chars_of, eq_str, find_char, first_index_of, is_ascii_seq, join_spec, lemma_first_index_bounds,
    nat_decimal, parse_uint, parse_uint_spec, push_chars, push_decimal_u64, push_joined,
    push_str_chars, split_chars, split_spec, string_of, string_views, sub_chars, trim, trim_spec,
    unicode_uppercase, uppercase_chars, views_of, ascii_upper_seq,
};
use crate::validation::{
    is_ascii_letter, is_identifier, is_qualified_identifier, validate_identifier, validate_qualified_identifier,
};

verus! {

/// Options of a bulk insert (the `WITH (...)` hints of `INSERT BULK`).
#[derive(Debug, Clone)]
pub struct BulkOptions {
    /// Rows per batch commit; 0 means a single batch.
    pub batch_size: usize,
    /// Check constraints during the insert.
    pub check_constraints: bool,
    /// Fire INSERT triggers.
    pub fire_triggers: bool,
    /// Keep NULLs instead of column defaults.
    pub keep_nulls: bool,
    /// Take a table-level lock.
    pub table_lock: bool,
    /// Columns by which the data is already ordered.
    pub order_hint: Option<Vec<String>>,
}

impl Default for BulkOptions {
    fn default() -> (r: Self)
        ensures
            r.batch_size == 0,
            r.check_constraints,
            !r.fire_triggers,
            r.keep_nulls,
            !r.table_lock,
            r.order_hint is None,
    {
        BulkOptions {
            batch_size: 0,
            check_constraints: true,
            fire_triggers: false,
            keep_nulls: true,
            table_lock: false,
            order_hint: None,
        }
    }
}

/// Result of a bulk insert.
#[derive(Debug, Clone)]
pub struct BulkInsertResult {
    /// Rows inserted.
    pub rows_affected: u64,
    /// Batches committed.
    pub batches_committed: u32,
    /// Whether errors were encountered.
    pub has_errors: bool,
}

/// A column collation: the 4-byte collation info (LCID and flags, little
/// endian on the wire) and the SQL sort id.
#[derive(Debug, Clone, Copy, PartialEq, Eq, Structural)]
pub struct Collation {
    pub lcid: u32,
    pub sort_id: u8,
}

pub open spec fn collation_bytes(c: Collation) -> Seq<u8> {
    seq![
        (c.lcid % 256) as u8,
        ((c.lcid / 256) % 256) as u8,
        ((c.lcid / 65536) % 256) as u8,
        (c.lcid / 16777216) as u8,
        c.sort_id,
    ]
}

impl Collation {
    /// The five wire bytes of the collation.
    pub fn to_bytes(&self) -> (r: [u8; 5])
        ensures
            r@ == collation_bytes(*self),
    {
        let i = self.lcid;
        let r = [(i % 256) as u8, ((i / 256) % 256) as u8, ((i / 65536) % 256) as u8, (i
            / 16777216) as u8, self.sort_id];
        assert(r@ =~= collation_bytes(*self));
        r
    }
}

// ---------------------------------------------------------------------------
// SQL type strings
// ---------------------------------------------------------------------------

/// `s` without trailing occurrences of `c` (`str::trim_end_matches`).
pub open spec fn trim_end_char_spec(s: Seq<char>, c: char) -> Seq<char>
    decreases s.len(),
{
    if s.len() > 0 && s.last() == c {
        trim_end_char_spec(s.drop_last(), c)
    } else {
        s
    }
}

/// The base type name: the text before the first `(`.
pub open spec fn type_base(u: Seq<char>) -> Seq<char> {
    match first_index_of(u, '(') {
        Some(p) => u.take(p),
        None => u,
    }
}

/// The parameters: the text after the first `(`, trailing `)` removed.
pub open spec fn type_params(u: Seq<char>) -> Option<Seq<char>> {
    match first_index_of(u, '(') {
        Some(p) => Some(trim_end_char_spec(u.skip(p + 1), ')')),
        None => None,
    }
}

pub const U32_MAX_NAT: u64 = 4294967295;

/// A `u8` parameter, or `default` when absent or not a number.
pub open spec fn param_u8(p: Option<Seq<char>>, default: u8) -> u8 {
    match p {
        Some(x) => match parse_uint_spec(x, 255) {
            Some(v) => v as u8,
            None => default,
        },
        None => default,
    }
}

/// A `u32` parameter, or `default` when absent or not a number.
pub open spec fn param_u32(p: Option<Seq<char>>, default: u32) -> u32 {
    match p {
        Some(x) => match parse_uint_spec(x, 4294967295) {
            Some(v) => v as u32,
            None => default,
        },
        None => default,
    }
}

/// A length parameter where `MAX` stands for 0xFFFF.
pub open spec fn param_len(p: Option<Seq<char>>, default: u32) -> u32 {
    if p == Some("MAX"@) {
        0xFFFF
    } else {
        param_u32(p, default)
    }
}

/// Precision of `DECIMAL(p, s)`: the first comma-separated part, trimmed.
pub open spec fn decimal_precision(p: Option<Seq<char>>) -> u8 {
    match p {
        Some(x) => param_u8(Some(trim_spec(split_spec(x, ',')[0])), 18),
        None => 18,
    }
}

/// Scale of `DECIMAL(p, s)`: the second comma-separated part, trimmed.
pub open spec fn decimal_scale(p: Option<Seq<char>>) -> u8 {
    match p {
        Some(x) => if split_spec(x, ',').len() > 1 {
            param_u8(Some(trim_spec(split_spec(x, ',')[1])), 0)
        } else {
            0
        },
        None => 0,
    }
}

/// TDS type information of an upper-cased SQL type string: the type id of
/// the nullable wire variant, the maximum length, precision and scale.
pub open spec fn sql_type_info(u: Seq<char>) -> (u8, Option<u32>, Option<u8>, Option<u8>) {
    let b = type_base(u);
    let p = type_params(u);
    if b == "BIT"@ {
        (0x68, Some(1), None, None)
    } else if b == "TINYINT"@ {
        (0x26, Some(1), None, None)
    } else if b == "SMALLINT"@ {
        (0x26, Some(2), None, None)
    } else if b == "INT"@ {
        (0x26, Some(4), None, None)
    } else if b == "BIGINT"@ {
        (0x26, Some(8), None, None)
    } else if b == "REAL"@ {
        (0x6D, Some(4), None, None)
    } else if b == "FLOAT"@ {
        (0x6D, Some(8), None, None)
    } else if b == "DATE"@ {
        (0x28, None, None, None)
    } else if b == "TIME"@ {
        (0x29, None, None, Some(param_u8(p, 7)))
    } else if b == "DATETIME"@ {
        (0x6F, Some(8), None, None)
    } else if b == "DATETIME2"@ {
        (0x2A, None, None, Some(param_u8(p, 7)))
    } else if b == "DATETIMEOFFSET"@ {
        (0x2B, None, None, Some(param_u8(p, 7)))
    } else if b == "SMALLDATETIME"@ {
        (0x6F, Some(4), None, None)
    } else if b == "UNIQUEIDENTIFIER"@ {
        (0x24, Some(16), None, None)
    } else if b == "VARCHAR"@ || b == "CHAR"@ {
        (0xA7, Some(param_len(p, 8000)), None, None)
    } else if b == "NVARCHAR"@ || b == "NCHAR"@ {
        if p == Some("MAX"@) {
            (0xE7, Some(0xFFFF), None, None)
        } else {
            (0xE7, Some((((param_u32(p, 4000) as nat) * 2) % 4294967296) as u32), None, None)
        }
    } else if b == "VARBINARY"@ || b == "BINARY"@ {
        (0xA5, Some(param_len(p, 8000)), None, None)
    } else if b == "DECIMAL"@ || b == "NUMERIC"@ {
        (0x6C, None, Some(decimal_precision(p)), Some(decimal_scale(p)))
    } else if b == "MONEY"@ {
        (0x6E, Some(8), None, None)
    } else if b == "SMALLMONEY"@ {
        (0x6E, Some(4), None, None)
    } else if b == "XML"@ {
        (0xF1, Some(0xFFFF), None, None)
    } else {
        (0xE7, Some(8000), None, None)
    }
}

proof fn lemma_trim_end_char_take(s: Seq<char>, c: char, j: int)
    requires
        0 <= j <= s.len(),
        forall|k: int| j <= k < s.len() ==> s[k] == c,
    ensures
        trim_end_char_spec(s, c) == trim_end_char_spec(s.take(j), c),
    decreases s.len() - j,
{
    if j < s.len() {
        assert(s.drop_last().take(j) =~= s.take(j));
        lemma_trim_end_char_take(s.drop_last(), c, j);
    } else {
        assert(s.take(j) =~= s);
    }
}

/// Removes trailing occurrences of `c`.
fn trim_end_char(s: &[char], c: char) -> (r: Vec<char>)
    ensures
        r@ == trim_end_char_spec(s@, c),
{
    let mut j: usize = s.len();
    while j > 0 && s[j - 1] == c
        invariant
            j <= s.len(),
            forall|k: int| j <= k < s.len() ==> s@[k] == c,
        decreases j,
    {
        j = j - 1;
    }
    proof {
        lemma_trim_end_char_take(s@, c, j as int);
        let u = s@.take(j as int);
        if j > 0 {
            assert(u.last() == s@[j - 1]);
        }
        assert(trim_end_char_spec(u, c) == u);
    }
    let r = sub_chars(s, 0, j);
    assert(r@ =~= s@.take(j as int));
    r
}

fn opt_u8_param(p: &Option<Vec<char>>, default: u8) -> (r: u8)
    ensures
        r == param_u8(opt_view(*p), default),
{
    match p {
        Some(x) => match parse_uint(x.as_slice(), 255) {
            Some(v) => v as u8,
            None => default,
        },
        None => default,
    }
}

fn opt_u32_param(p: &Option<Vec<char>>, default: u32) -> (r: u32)
    ensures
        r == param_u32(opt_view(*p), default),
{
    match p {
        Some(x) => match parse_uint(x.as_slice(), U32_MAX_NAT) {
            Some(v) => v as u32,
            None => default,
        },
        None => default,
    }
}

fn is_max_param(p: &Option<Vec<char>>) -> (r: bool)
    ensures
        r == (opt_view(*p) == Some("MAX"@)),
{
    match p {
        Some(x) => eq_str(x.as_slice(), "MAX"),
        None => false,
    }
}

fn opt_len_param(p: &Option<Vec<char>>, default: u32) -> (r: u32)
    ensures
        r == param_len(opt_view(*p), default),
{
    if is_max_param(p) {
        0xFFFF
    } else {
        opt_u32_param(p, default)
    }
}

pub open spec fn opt_view(p: Option<Vec<char>>) -> Option<Seq<char>> {
    match p {
        Some(x) => Some(x@),
        None => None,
    }
}

fn decimal_params(p: &Option<Vec<char>>) -> (r: (u8, u8))
    ensures
        r.0 == decimal_precision(opt_view(*p)),
        r.1 == decimal_scale(opt_view(*p)),
{
    match p {
        Some(x) => {
            let parts = split_chars(x.as_slice(), ',');
            assert(parts@[0]@ == split_spec(x@, ',')[0]);
            let first = Some(trim(parts[0].as_slice()));
            let prec = opt_u8_param(&first, 18);
            let scale = if parts.len() > 1 {
                assert(parts@[1]@ == split_spec(x@, ',')[1]);
                let second = Some(trim(parts[1].as_slice()));
                opt_u8_param(&second, 0)
            } else {
                0
            };
            (prec, scale)
        },
        None => (18, 0),
    }
}

/// Splits an upper-cased type string into its base name and parameters.
fn split_type(u: &[char]) -> (r: (Vec<char>, Option<Vec<char>>))
    ensures
        r.0@ == type_base(u@),
        opt_view(r.1) == type_params(u@),
{
    proof {
        lemma_first_index_bounds(u@, '(');
    }
    match find_char(u, '(') {
        Some(p) => {
            let base = sub_chars(u, 0, p);
            assert(base@ =~= u@.take(p as int));
            let rest = sub_chars(u, p + 1, u.len());
            assert(rest@ =~= u@.skip(p + 1));
            let params = trim_end_char(rest.as_slice(), ')');
            (base, Some(params))
        },
        None => {
            let base = sub_chars(u, 0, u.len());
            assert(base@ =~= u@);
            (base, None)
        },
    }
}

/// TDS type information of an upper-cased SQL type string.
fn type_info_of_upper(u: &[char]) -> (r: (u8, Option<u32>, Option<u8>, Option<u8>))
    ensures
        r == sql_type_info(u@),
{
    let (b, p) = split_type(u);
    let b = b.as_slice();
    if eq_str(b, "BIT") {
        (0x68, Some(1), None, None)
    } else if eq_str(b, "TINYINT") {
        (0x26, Some(1), None, None)
    } else if eq_str(b, "SMALLINT") {
        (0x26, Some(2), None, None)
    } else if eq_str(b, "INT") {
        (0x26, Some(4), None, None)
    } else if eq_str(b, "BIGINT") {
        (0x26, Some(8), None, None)
    } else if eq_str(b, "REAL") {
        (0x6D, Some(4), None, None)
    } else if eq_str(b, "FLOAT") {
        (0x6D, Some(8), None, None)
    } else if eq_str(b, "DATE") {
        (0x28, None, None, None)
    } else if eq_str(b, "TIME") {
        (0x29, None, None, Some(opt_u8_param(&p, 7)))
    } else if eq_str(b, "DATETIME") {
        (0x6F, Some(8), None, None)
    } else if eq_str(b, "DATETIME2") {
        (0x2A, None, None, Some(opt_u8_param(&p, 7)))
    } else if eq_str(b, "DATETIMEOFFSET") {
        (0x2B, None, None, Some(opt_u8_param(&p, 7)))
    } else if eq_str(b, "SMALLDATETIME") {
        (0x6F, Some(4), None, None)
    } else if eq_str(b, "UNIQUEIDENTIFIER") {
        (0x24, Some(16), None, None)
    } else if eq_str(b, "VARCHAR") || eq_str(b, "CHAR") {
        (0xA7, Some(opt_len_param(&p, 8000)), None, None)
    } else if eq_str(b, "NVARCHAR") || eq_str(b, "NCHAR") {
        if is_max_param(&p) {
            (0xE7, Some(0xFFFF), None, None)
        } else {
            let len = opt_u32_param(&p, 4000);
            (0xE7, Some(len.wrapping_mul(2)), None, None)
        }
    } else if eq_str(b, "VARBINARY") || eq_str(b, "BINARY") {
        (0xA5, Some(opt_len_param(&p, 8000)), None, None)
    } else if eq_str(b, "DECIMAL") || eq_str(b, "NUMERIC") {
        let (prec, scale) = decimal_params(&p);
        (0x6C, None, Some(prec), Some(scale))
    } else if eq_str(b, "MONEY") {
        (0x6E, Some(8), None, None)
    } else if eq_str(b, "SMALLMONEY") {
        (0x6E, Some(4), None, None)
    } else if eq_str(b, "XML") {
        (0xF1, Some(0xFFFF), None, None)
    } else {
        (0xE7, Some(8000), None, None)
    }
}

/// Parses a SQL type string (`INT`, `NVARCHAR(100)`, `DECIMAL(10,2)`, ...)
/// into its TDS type id (the nullable variant), maximum length, precision
/// and scale.  The string is upper-cased with `str::to_uppercase`; a
/// malformed parameter falls back to the type's default.
pub fn parse_sql_type(sql_type: &str) -> (r: (u8, Option<u32>, Option<u8>, Option<u8>))
    ensures
        r == sql_type_info(unicode_uppercase(sql_type@)),
        is_ascii_seq(sql_type@) ==> r == sql_type_info(ascii_upper_seq(sql_type@)),
{
    let v = chars_of(sql_type);
    let u = uppercase_chars(v.as_slice());
    type_info_of_upper(u.as_slice())
}


// ---------------------------------------------------------------------------
// Deprecated large-object types
// ---------------------------------------------------------------------------

/// The base type name that `reject_unsupported_bulk_type` examines: the text
/// before the first `(`, trimmed and upper-cased.
pub open spec fn reject_base(s: Seq<char>) -> Seq<char> {
    unicode_uppercase(trim_spec(split_spec(s, '(')[0]))
}

pub open spec fn text_reason() -> Seq<char> {
    "TEXT/NTEXT are not supported. Use VARCHAR(MAX) / NVARCHAR(MAX) instead (Microsoft deprecated TEXT/NTEXT in SQL Server 2005)."@
}

pub open spec fn image_reason() -> Seq<char> {
    "IMAGE is not supported. Use VARBINARY(MAX) instead (Microsoft deprecated IMAGE in SQL Server 2005)."@
}

/// Whether an upper-cased base type is one of the deprecated LOB types.
pub open spec fn is_deprecated_lob(b: Seq<char>) -> bool {
    b == "TEXT"@ || b == "NTEXT"@ || b == "IMAGE"@
}

/// Rejects the deprecated `TEXT`, `NTEXT` and `IMAGE` types.
pub fn reject_unsupported_bulk_type(sql_type: &str) -> (r: Result<(), TypeError>)
    ensures
        r is Err <==> is_deprecated_lob(reject_base(sql_type@)),
        r matches Err(e) ==> (e matches TypeError::UnsupportedType { sql_type: t, reason } && t@
            == reject_base(sql_type@) && reason@ == (if reject_base(sql_type@) == "IMAGE"@ {
            image_reason()
        } else {
            text_reason()
        })),
        is_ascii_seq(trim_spec(split_spec(sql_type@, '(')[0])) ==> (r is Err <==> is_deprecated_lob(
            ascii_upper_seq(trim_spec(split_spec(sql_type@, '(')[0])),
        )),
{
    let v = chars_of(sql_type);
    let parts = split_chars(v.as_slice(), '(');
    assert(parts@[0]@ == split_spec(sql_type@, '(')[0]);
    let t = trim(parts[0].as_slice());
    let base = uppercase_chars(t.as_slice());
    proof {
        reveal_strlit("TEXT");
        reveal_strlit("NTEXT");
        reveal_strlit("IMAGE");
        assert("TEXT"@.len() == 4);
        assert("NTEXT"@.len() == 5);
        assert("IMAGE"@.len() == 5);
        assert("NTEXT"@[0] != "IMAGE"@[0]);
    }
    if eq_str(base.as_slice(), "TEXT") || eq_str(base.as_slice(), "NTEXT") {
        let reason = owned(
            "TEXT/NTEXT are not supported. Use VARCHAR(MAX) / NVARCHAR(MAX) instead (Microsoft deprecated TEXT/NTEXT in SQL Server 2005).",
        );
        assert(base@ == reject_base(sql_type@));
        assert(base@ != "IMAGE"@);
        assert(reason@ == text_reason());
        Err(TypeError::UnsupportedType { sql_type: string_of(base.as_slice()), reason })
    } else if eq_str(base.as_slice(), "IMAGE") {
        let reason = owned(
            "IMAGE is not supported. Use VARBINARY(MAX) instead (Microsoft deprecated IMAGE in SQL Server 2005).",
        );
        assert(reason@ == image_reason());
        Err(TypeError::UnsupportedType { sql_type: string_of(base.as_slice()), reason })
    } else {
        Ok(())
    }
}

// ---------------------------------------------------------------------------
// Columns
// ---------------------------------------------------------------------------

/// A column of a bulk insert.
#[derive(Debug, Clone)]
pub struct BulkColumn {
    /// Column name.
    pub name: String,
    /// SQL Server type, e.g. `INT` or `NVARCHAR(100)`.
    pub sql_type: String,
    /// Whether the column accepts NULL.
    pub nullable: bool,
    /// Column ordinal (0-based).
    pub ordinal: usize,
    pub(crate) type_id: u8,
    pub(crate) max_length: Option<u32>,
    pub(crate) precision: Option<u8>,
    pub(crate) scale: Option<u8>,
    pub(crate) collation: Option<Collation>,
}

/// The abstract content of a [`BulkColumn`].
pub ghost struct ColumnView {
    pub name: Seq<char>,
    pub sql_type: Seq<char>,
    pub nullable: bool,
    pub ordinal: usize,
    pub type_id: u8,
    pub max_length: Option<u32>,
    pub precision: Option<u8>,
    pub scale: Option<u8>,
    pub collation: Option<Collation>,
}

impl View for BulkColumn {
    type V = ColumnView;

    closed spec fn view(&self) -> ColumnView {
        ColumnView {
            name: self.name@,
            sql_type: self.sql_type@,
            nullable: self.nullable,
            ordinal: self.ordinal,
            type_id: self.type_id,
            max_length: self.max_length,
            precision: self.precision,
            scale: self.scale,
            collation: self.collation,
        }
    }
}

/// The view of a column holds its fields.
pub(crate) proof fn lemma_column_fields(c: BulkColumn)
    ensures
        c@.name == c.name@,
        c@.nullable == c.nullable,
        c@.type_id == c.type_id,
        c@.max_length == c.max_length,
        c@.precision == c.precision,
        c@.scale == c.scale,
        c@.collation == c.collation,
{
}

/// The column a successful `BulkColumn::new` yields.
pub open spec fn new_column_view(name: Seq<char>, sql_type: Seq<char>, ordinal: usize) -> ColumnView {
    let info = sql_type_info(unicode_uppercase(sql_type));
    ColumnView {
        name: name,
        sql_type: sql_type,
        nullable: true,
        ordinal: ordinal,
        type_id: info.0,
        max_length: info.1,
        precision: info.2,
        scale: info.3,
        collation: None,
    }
}

impl BulkColumn {
    /// A nullable column of the given SQL type.  Fails with
    /// `TypeError::UnsupportedType` for `TEXT`, `NTEXT` and `IMAGE`.
    pub fn new(name: &str, sql_type: &str, ordinal: usize) -> (r: Result<Self, TypeError>)
        ensures
            r is Err <==> is_deprecated_lob(reject_base(sql_type@)),
            r matches Ok(c) ==> c@ == new_column_view(name@, sql_type@, ordinal),
            r matches Err(e) ==> (e matches TypeError::UnsupportedType { sql_type: t, .. } && t@
                == reject_base(sql_type@)),
    {
        match reject_unsupported_bulk_type(sql_type) {
            Err(e) => Err(e),
            Ok(()) => {
                let (type_id, max_length, precision, scale) = parse_sql_type(sql_type);
                let n = chars_of(name);
                let st = chars_of(sql_type);
                Ok(
                    BulkColumn {
                        name: string_of(n.as_slice()),
                        sql_type: string_of(st.as_slice()),
                        nullable: true,
                        ordinal,
                        type_id,
                        max_length,
                        precision,
                        scale,
                        collation: None,
                    },
                )
            },
        }
    }

    /// Sets whether the column accepts NULL.
    pub fn with_nullable(self, nullable: bool) -> (r: Self)
        ensures
            r@ == (ColumnView { nullable: nullable, ..self@ }),
    {
        BulkColumn { nullable, ..self }
    }

    /// Sets the collation used to encode VARCHAR/CHAR values.
    pub fn with_collation(self, collation: Collation) -> (r: Self)
        ensures
            r@ == (ColumnView { collation: Some(collation), ..self@ }),
    {
        BulkColumn { collation: Some(collation), ..self }
    }

    /// Takes the given collation when the column has none of its own.
    pub(crate) fn adopt_collation(&mut self, collation: Option<Collation>)
        ensures
            final(self)@ == (if old(self)@.collation is None {
                ColumnView { collation: collation, ..old(self)@ }
            } else {
                old(self)@
            }),
    {
        if self.collation.is_none() {
            self.collation = collation;
        }
    }

    /// The TDS type id (nullable variant).
    pub fn type_id(&self) -> (r: u8)
        ensures
            r == self@.type_id,
    {
        self.type_id
    }

    /// The maximum length of variable-length types.
    pub fn max_length(&self) -> (r: Option<u32>)
        ensures
            r == self@.max_length,
    {
        self.max_length
    }

    /// The precision of decimal types.
    pub fn precision(&self) -> (r: Option<u8>)
        ensures
            r == self@.precision,
    {
        self.precision
    }

    /// The scale of decimal and time types.
    pub fn scale(&self) -> (r: Option<u8>)
        ensures
            r == self@.scale,
    {
        self.scale
    }

    /// The collation set for this column, if any.
    pub fn collation(&self) -> (r: Option<Collation>)
        ensures
            r == self@.collation,
    {
        self.collation
    }
}


// ---------------------------------------------------------------------------
// INSERT BULK statement
// ---------------------------------------------------------------------------

/// Characters allowed after the first one of a SQL type specifier.
pub open spec fn is_sql_type_char(c: char) -> bool {
    is_ascii_letter(c) || ('0' <= c && c <= '9') || c == '_' || c == ' ' || c == '(' || c == ')'
        || c == '.' || c == ','
}

/// The shape `^[a-zA-Z][a-zA-Z0-9_ ()\.,]{0,127}$` that SQL type
/// specifiers must have before they are spliced into SQL text.
pub open spec fn sql_type_shape_ok(s: Seq<char>) -> bool {
    &&& 1 <= s.len() <= 128
    &&& is_ascii_letter(s[0])
    &&& forall|i: int| 1 <= i < s.len() ==> is_sql_type_char(#[trigger] s[i])
}

/// The regular expression a SQL type specifier must match:
/// [`sql_type_shape_ok`] written for the `regex` crate.
pub const SQL_TYPE_PATTERN: &'static str = r"^[a-zA-Z][a-zA-Z0-9_ ()\.,]{0,127}$";

/// Calls `regex::Regex::new` on the pattern, then `Regex::is_match` on the
/// text.  For [`SQL_TYPE_PATTERN`] (a letter followed by at most 127 of the
/// listed ASCII characters, anchored at both ends; without the multi-line
/// flag `$` matches only at the end of the text) the match is
/// [`sql_type_shape_ok`].  A pattern that does not compile matches nothing.
#[verifier::external_body]
fn regex_is_match(pattern: &str, s: &str) -> (r: bool)
    requires
        pattern@ == SQL_TYPE_PATTERN@,
    ensures
        r == sql_type_shape_ok(s@),
{
    match regex::Regex::new(pattern) {
        Ok(re) => re.is_match(s),
        Err(_) => false,
    }
}

/// Validates a SQL type specifier.
pub fn validate_sql_type(type_str: &str) -> (r: Result<(), Error>)
    ensures
        r is Ok <==> sql_type_shape_ok(type_str@),
        r matches Err(e) ==> e is Config,
{
    let v = chars_of(type_str);
    if v.len() == 0 {
        return Err(Error::Config(owned("SQL type cannot be empty")));
    }
    if !regex_is_match(SQL_TYPE_PATTERN, type_str) {
        let mut m = chars_of("invalid SQL type '");
        push_chars(&mut m, v.as_slice());
        push_str_chars(&mut m, "': contains disallowed characters");
        return Err(Error::Config(string_of(m.as_slice())));
    }
    Ok(())
}

/// Builder of a bulk insert: target table, columns and options.
#[derive(Debug)]
pub struct BulkInsertBuilder {
    table_name: String,
    columns: Vec<BulkColumn>,
    options: BulkOptions,
}

/// The abstract content of a [`BulkInsertBuilder`].
pub ghost struct BuilderView {
    pub table: Seq<char>,
    pub columns: Seq<ColumnView>,
    pub options: BulkOptions,
}

pub open spec fn column_views(cs: Seq<BulkColumn>) -> Seq<ColumnView> {
    cs.map_values(|c: BulkColumn| c@)
}

impl View for BulkInsertBuilder {
    type V = BuilderView;

    closed spec fn view(&self) -> BuilderView {
        BuilderView {
            table: self.table_name@,
            columns: column_views(self.columns@),
            options: self.options,
        }
    }
}

/// Column definition `name type`.
pub open spec fn column_def(c: ColumnView) -> Seq<char> {
    c.name + seq![' '] + c.sql_type
}

pub open spec fn flag_hint(b: bool, h: Seq<char>) -> Seq<Seq<char>> {
    if b {
        seq![h]
    } else {
        Seq::empty()
    }
}

/// The hints of the `WITH (...)` clause, in order.
pub open spec fn hints_spec(o: BulkOptions) -> Seq<Seq<char>> {
    flag_hint(o.check_constraints, "CHECK_CONSTRAINTS"@) + flag_hint(
        o.fire_triggers,
        "FIRE_TRIGGERS"@,
    ) + flag_hint(o.keep_nulls, "KEEP_NULLS"@) + flag_hint(o.table_lock, "TABLOCK"@) + flag_hint(
        o.batch_size > 0,
        "ROWS_PER_BATCH = "@ + nat_decimal(o.batch_size as nat),
    ) + match o.order_hint {
        Some(v) => seq!["ORDER("@ + join_spec(string_views(v@), ", "@) + ")"@],
        None => Seq::empty(),
    }
}

/// The text of the `INSERT BULK` statement.
pub open spec fn insert_bulk_text(b: BuilderView) -> Seq<char> {
    let cols = b.columns.map_values(|c: ColumnView| column_def(c));
    let hints = hints_spec(b.options);
    "INSERT BULK "@ + b.table + (if cols.len() > 0 {
        " ("@ + join_spec(cols, ", "@) + ")"@
    } else {
        Seq::empty()
    }) + (if hints.len() > 0 {
        " WITH ("@ + join_spec(hints, ", "@) + ")"@
    } else {
        Seq::empty()
    })
}

/// Whether the table and all column names are valid identifiers.
pub open spec fn names_valid(b: BuilderView) -> bool {
    is_qualified_identifier(b.table) && forall|i: int|
        0 <= i < b.columns.len() ==> is_identifier(#[trigger] b.columns[i].name)
}

/// Whether all column types have an allowed shape.
pub open spec fn types_valid(b: BuilderView) -> bool {
    forall|i: int| 0 <= i < b.columns.len() ==> sql_type_shape_ok(#[trigger] b.columns[i].sql_type)
}

/// Whether all ORDER hint names are valid identifiers.
pub open spec fn order_valid(o: BulkOptions) -> bool {
    match o.order_hint {
        Some(v) => forall|i: int| 0 <= i < v@.len() ==> is_identifier(#[trigger] v@[i]@),
        None => true,
    }
}

/// Appends `", "`-joined flag hints.
fn push_hint(hints: &mut Vec<Vec<char>>, on: bool, h: &str)
    ensures
        views_of(final(hints)@) == views_of(old(hints)@) + flag_hint(on, h@),
{
    let ghost prev = views_of(hints@);
    if on {
        let v = chars_of(h);
        hints.push(v);
        assert(views_of(hints@) =~= prev + seq![h@]);
    } else {
        assert(views_of(hints@) =~= prev + Seq::<Seq<char>>::empty());
    }
}

impl BulkInsertBuilder {
    /// A builder for `table_name` with no columns and default options.
    pub fn new(table_name: &str) -> (r: Self)
        ensures
            r@.table == table_name@,
            r@.columns.len() == 0,
            r@.options.batch_size == 0,
            r@.options.check_constraints,
            !r@.options.fire_triggers,
            r@.options.keep_nulls,
            !r@.options.table_lock,
            r@.options.order_hint is None,
    {
        let t = chars_of(table_name);
        BulkInsertBuilder {
            table_name: string_of(t.as_slice()),
            columns: Vec::new(),
            options: BulkOptions::default(),
        }
    }

    /// Columns given by name only; each is a nullable `NVARCHAR(MAX)`
    /// column whose ordinal is its position.
    pub fn with_columns(self, column_names: &[&str]) -> (r: Self)
        ensures
            r@.table == self@.table,
            r@.options == self@.options,
            r@.columns.len() == column_names@.len(),
            forall|i: int|
                0 <= i < column_names@.len() ==> #[trigger] r@.columns[i] == (ColumnView {
                    name: column_names@[i]@,
                    sql_type: "NVARCHAR(MAX)"@,
                    nullable: true,
                    ordinal: i as usize,
                    type_id: 0xE7,
                    max_length: Some(0xFFFF),
                    precision: None,
                    scale: None,
                    collation: None,
                }),
    {
        let mut cols: Vec<BulkColumn> = Vec::new();
        let mut i: usize = 0;
        while i < column_names.len()
            invariant
                i <= column_names.len(),
                cols@.len() == i,
                forall|k: int|
                    0 <= k < i ==> #[trigger] cols@[k]@ == (ColumnView {
                        name: column_names@[k]@,
                        sql_type: "NVARCHAR(MAX)"@,
                        nullable: true,
                        ordinal: k as usize,
                        type_id: 0xE7,
                        max_length: Some(0xFFFF),
                        precision: None,
                        scale: None,
                        collation: None,
                    }),
            decreases column_names.len() - i,
        {
            let n = chars_of(column_names[i]);
            let st = chars_of("NVARCHAR(MAX)");
            let c = BulkColumn {
                name: string_of(n.as_slice()),
                sql_type: string_of(st.as_slice()),
                nullable: true,
                ordinal: i,
                type_id: 0xE7,
                max_length: Some(0xFFFF),
                precision: None,
                scale: None,
                collation: None,
            };
            cols.push(c);
            i = i + 1;
        }
        BulkInsertBuilder { columns: cols, ..self }
    }

    /// Columns with full type information.
    pub fn with_typed_columns(self, columns: Vec<BulkColumn>) -> (r: Self)
        ensures
            r@ == (BuilderView { columns: column_views(columns@), ..self@ }),
    {
        BulkInsertBuilder { columns, ..self }
    }

    /// Replaces the options.
    pub fn with_options(self, options: BulkOptions) -> (r: Self)
        ensures
            r@ == (BuilderView { options: options, ..self@ }),
    {
        BulkInsertBuilder { options, ..self }
    }

    /// Sets the batch size.
    pub fn batch_size(self, size: usize) -> (r: Self)
        ensures
            r@ == (BuilderView {
                options: BulkOptions { batch_size: size, ..self@.options },
                ..self@
            }),
    {
        let mut b = self;
        b.options.batch_size = size;
        b
    }

    /// Enables or disables the table lock.
    pub fn table_lock(self, enabled: bool) -> (r: Self)
        ensures
            r@ == (BuilderView {
                options: BulkOptions { table_lock: enabled, ..self@.options },
                ..self@
            }),
    {
        let mut b = self;
        b.options.table_lock = enabled;
        b
    }

    /// Enables or disables firing triggers.
    pub fn fire_triggers(self, enabled: bool) -> (r: Self)
        ensures
            r@ == (BuilderView {
                options: BulkOptions { fire_triggers: enabled, ..self@.options },
                ..self@
            }),
    {
        let mut b = self;
        b.options.fire_triggers = enabled;
        b
    }

    /// The target table.
    pub fn table_name(&self) -> (r: &str)
        ensures
            r@ == self@.table,
    {
        self.table_name.as_str()
    }

    /// The columns.
    pub fn columns(&self) -> (r: &[BulkColumn])
        ensures
            column_views(r@) == self@.columns,
    {
        self.columns.as_slice()
    }

    /// The options.
    pub fn options(&self) -> (r: &BulkOptions)
        ensures
            *r == self@.options,
    {
        &self.options
    }

    /// The `INSERT BULK` statement for this builder.  The table name, the
    /// column names and the ORDER hint names must be identifiers and each
    /// column type must have the shape of a type specifier.
    pub fn build_insert_bulk_statement(&self) -> (r: Result<String, Error>)
        ensures
            r is Ok <==> names_valid(self@) && types_valid(self@) && order_valid(self@.options),
            !names_valid(self@) ==> (r matches Err(e) && e is InvalidIdentifier),
            names_valid(self@) && !types_valid(self@) ==> (r matches Err(e) && e is Config),
            names_valid(self@) && types_valid(self@) && !order_valid(self@.options) ==> (r matches Err(
                e,
            ) && e is InvalidIdentifier),
            r matches Ok(s) ==> s@ == insert_bulk_text(self@),
    {
        let ghost b = self@;
        match validate_qualified_identifier(self.table_name.as_str()) {
            Err(e) => {
                return Err(e);
            },
            Ok(()) => {},
        }
        match check_column_names(&self.columns) {
            Err(e) => {
                return Err(e);
            },
            Ok(()) => {},
        }
        let defs = match column_defs(&self.columns) {
            Err(e) => {
                return Err(e);
            },
            Ok(d) => d,
        };
        let hints = match build_hints(&self.options) {
            Err(e) => {
                return Err(e);
            },
            Ok(h) => h,
        };
        let ghost cols = b.columns.map_values(|c: ColumnView| column_def(c));
        let mut out = chars_of("INSERT BULK ");
        let t = chars_of(self.table_name.as_str());
        push_chars(&mut out, t.as_slice());
        let sep = chars_of(", ");
        if defs.len() > 0 {
            push_str_chars(&mut out, " (");
            push_joined(&mut out, &defs, sep.as_slice());
            push_str_chars(&mut out, ")");
        }
        if hints.len() > 0 {
            push_str_chars(&mut out, " WITH (");
            push_joined(&mut out, &hints, sep.as_slice());
            push_str_chars(&mut out, ")");
        }
        assert(out@ =~= insert_bulk_text(b));
        Ok(string_of(out.as_slice()))
    }
}

/// Checks that every column name is an identifier.
fn check_column_names(cols: &Vec<BulkColumn>) -> (r: Result<(), Error>)
    ensures
        r is Ok <==> forall|i: int|
            0 <= i < cols@.len() ==> is_identifier(#[trigger] column_views(cols@)[i].name),
        r matches Err(e) ==> e is InvalidIdentifier,
{
    let mut i: usize = 0;
    while i < cols.len()
        invariant
            i <= cols.len(),
            forall|k: int| 0 <= k < i ==> is_identifier(#[trigger] column_views(cols@)[k].name),
        decreases cols.len() - i,
    {
        assert(column_views(cols@)[i as int] == cols@[i as int]@);
        match validate_identifier(cols[i].name.as_str()) {
            Err(e) => {
                assert(!is_identifier(column_views(cols@)[i as int].name));
                return Err(e);
            },
            Ok(()) => {},
        }
        i = i + 1;
    }
    Ok(())
}

/// The `name type` definitions of the columns, after checking each type.
fn column_defs(cols: &Vec<BulkColumn>) -> (r: Result<Vec<Vec<char>>, Error>)
    ensures
        r is Ok <==> forall|i: int|
            0 <= i < cols@.len() ==> sql_type_shape_ok(#[trigger] column_views(cols@)[i].sql_type),
        r matches Ok(d) ==> views_of(d@) == column_views(cols@).map_values(
            |c: ColumnView| column_def(c),
        ),
        r matches Err(e) ==> e is Config,
{
    let ghost cv = column_views(cols@);
    let ghost target = cv.map_values(|c: ColumnView| column_def(c));
    let mut defs: Vec<Vec<char>> = Vec::new();
    let mut j: usize = 0;
    while j < cols.len()
        invariant
            j <= cols.len(),
            cv == column_views(cols@),
            target == cv.map_values(|c: ColumnView| column_def(c)),
            views_of(defs@) == target.take(j as int),
            forall|k: int| 0 <= k < j ==> sql_type_shape_ok(#[trigger] cv[k].sql_type),
        decreases cols.len() - j,
    {
        assert(cv[j as int] == cols@[j as int]@);
        match validate_sql_type(cols[j].sql_type.as_str()) {
            Err(e) => {
                assert(!sql_type_shape_ok(cv[j as int].sql_type));
                return Err(e);
            },
            Ok(()) => {},
        }
        let mut d = chars_of(cols[j].name.as_str());
        d.push(' ');
        push_str_chars(&mut d, cols[j].sql_type.as_str());
        let ghost prev = views_of(defs@);
        defs.push(d);
        assert(target[j as int] =~= d@);
        assert(views_of(defs@) =~= prev.push(d@));
        assert(views_of(defs@) =~= target.take(j + 1));
        j = j + 1;
    }
    assert(target.take(cols.len() as int) =~= target);
    Ok(defs)
}

/// The characters of each string.
fn char_items(v: &Vec<String>) -> (r: Vec<Vec<char>>)
    ensures
        views_of(r@) == string_views(v@),
{
    let mut items: Vec<Vec<char>> = Vec::new();
    let mut k: usize = 0;
    while k < v.len()
        invariant
            k <= v.len(),
            views_of(items@) == string_views(v@).take(k as int),
        decreases v.len() - k,
    {
        let c = chars_of(v[k].as_str());
        let ghost prev = views_of(items@);
        items.push(c);
        assert(string_views(v@)[k as int] == c@);
        assert(views_of(items@) =~= prev.push(c@));
        assert(views_of(items@) =~= string_views(v@).take(k + 1));
        k = k + 1;
    }
    assert(string_views(v@).take(v.len() as int) =~= string_views(v@));
    items
}

/// The WITH hints, after checking the ORDER hint names.
fn build_hints(o: &BulkOptions) -> (r: Result<Vec<Vec<char>>, Error>)
    ensures
        r is Ok <==> order_valid(*o),
        r matches Ok(h) ==> views_of(h@) == hints_spec(*o),
        r matches Err(e) ==> e is InvalidIdentifier,
{
    let mut hints: Vec<Vec<char>> = Vec::new();
    assert(views_of(hints@) =~= Seq::<Seq<char>>::empty());
    push_hint(&mut hints, o.check_constraints, "CHECK_CONSTRAINTS");
    push_hint(&mut hints, o.fire_triggers, "FIRE_TRIGGERS");
    push_hint(&mut hints, o.keep_nulls, "KEEP_NULLS");
    push_hint(&mut hints, o.table_lock, "TABLOCK");
    let ghost hb = views_of(hints@);
    if o.batch_size > 0 {
        let mut h = chars_of("ROWS_PER_BATCH = ");
        push_decimal_u64(&mut h, o.batch_size as u64);
        hints.push(h);
        assert(views_of(hints@) =~= hb + flag_hint(
            true,
            "ROWS_PER_BATCH = "@ + nat_decimal(o.batch_size as nat),
        ));
    } else {
        assert(views_of(hints@) =~= hb + Seq::<Seq<char>>::empty());
    }
    let ghost ho = views_of(hints@);
    match &o.order_hint {
        Some(order) => {
            let mut k: usize = 0;
            while k < order.len()
                invariant
                    k <= order.len(),
                    o.order_hint == Some(*order),
                    forall|m: int| 0 <= m < k ==> is_identifier(#[trigger] order@[m]@),
                decreases order.len() - k,
            {
                match validate_identifier(order[k].as_str()) {
                    Err(e) => {
                        assert(!is_identifier(order@[k as int]@));
                        assert(o.order_hint->0@[k as int] == order@[k as int]);
                        assert(!order_valid(*o));
                        return Err(e);
                    },
                    Ok(()) => {},
                }
                k = k + 1;
            }
            let items = char_items(order);
            let mut h = chars_of("ORDER(");
            let sep = chars_of(", ");
            push_joined(&mut h, &items, sep.as_slice());
            push_str_chars(&mut h, ")");
            hints.push(h);
            assert(views_of(hints@) =~= ho + seq![
                "ORDER("@ + join_spec(string_views(order@), ", "@) + ")"@,
            ]);
        },
        None => {
            assert(views_of(hints@) =~= ho + Seq::<Seq<char>>::empty());
        },
    }
    assert(views_of(hints@) =~= hints_spec(*o));
    Ok(hints)
}


// ---------------------------------------------------------------------------
// Wire sizes
// ---------------------------------------------------------------------------

/// The fixed-width type id that replaces a nullable one for NOT NULL columns.
pub open spec fn fixed_type_spec(type_id: u8, max_length: Option<u32>) -> Option<u8> {
    if type_id == 0x68 {
        Some(0x32)
    } else if type_id == 0x26 && max_length == Some(1u32) {
        Some(0x30)
    } else if type_id == 0x26 && max_length == Some(2u32) {
        Some(0x34)
    } else if type_id == 0x26 && max_length == Some(4u32) {
        Some(0x38)
    } else if type_id == 0x26 && max_length == Some(8u32) {
        Some(0x7F)
    } else if type_id == 0x6D && max_length == Some(4u32) {
        Some(0x3B)
    } else if type_id == 0x6D && max_length == Some(8u32) {
        Some(0x3E)
    } else if type_id == 0x6E && max_length == Some(4u32) {
        Some(0x7A)
    } else if type_id == 0x6E && max_length == Some(8u32) {
        Some(0x3C)
    } else if type_id == 0x6F && max_length == Some(4u32) {
        Some(0x3A)
    } else if type_id == 0x6F && max_length == Some(8u32) {
        Some(0x3D)
    } else {
        None
    }
}

/// Maps a nullable type id (INTN, BITN, FLTN, MONEYN, DATETIMEN) of the
/// given length to its fixed-width counterpart; `None` for types without one.
pub fn nullable_to_fixed_type(type_id: u8, max_length: Option<u32>) -> (r: Option<u8>)
    ensures
        r == fixed_type_spec(type_id, max_length),
{
    match (type_id, max_length) {
        (0x68, _) => Some(0x32),
        (0x26, Some(1)) => Some(0x30),
        (0x26, Some(2)) => Some(0x34),
        (0x26, Some(4)) => Some(0x38),
        (0x26, Some(8)) => Some(0x7F),
        (0x6D, Some(4)) => Some(0x3B),
        (0x6D, Some(8)) => Some(0x3E),
        (0x6E, Some(4)) => Some(0x7A),
        (0x6E, Some(8)) => Some(0x3C),
        (0x6F, Some(4)) => Some(0x3A),
        (0x6F, Some(8)) => Some(0x3D),
        _ => None,
    }
}

pub open spec fn decimal_len_spec(precision: u8) -> u8 {
    if 1 <= precision <= 9 {
        5
    } else if 10 <= precision <= 19 {
        9
    } else if 20 <= precision <= 28 {
        13
    } else {
        17
    }
}

/// Bytes of a DECIMAL value (sign byte included) for a precision.
pub fn decimal_byte_length(precision: u8) -> (r: u8)
    ensures
        r == decimal_len_spec(precision),
{
    match precision {
        1..=9 => 5,
        10..=19 => 9,
        20..=28 => 13,
        29..=38 => 17,
        _ => 17,
    }
}

pub open spec fn time_len_spec(scale: u8) -> u8 {
    if scale <= 2 {
        3
    } else if scale <= 4 {
        4
    } else {
        5
    }
}

/// Bytes of a TIME value for a fractional-second scale.
pub fn time_byte_length(scale: u8) -> (r: u8)
    ensures
        r == time_len_spec(scale),
{
    match scale {
        0..=2 => 3,
        3..=4 => 4,
        5..=7 => 5,
        _ => 5,
    }
}

pub open spec fn time_divisor_spec(scale: u8) -> u64 {
    if scale == 0 {
        1_000_000_000
    } else if scale == 1 {
        100_000_000
    } else if scale == 2 {
        10_000_000
    } else if scale == 3 {
        1_000_000
    } else if scale == 4 {
        100_000
    } else if scale == 5 {
        10_000
    } else if scale == 6 {
        1_000
    } else {
        100
    }
}

/// Nanoseconds per time unit at a scale (10^(9 - scale), at least 100).
pub fn time_scale_divisor(scale: u8) -> (r: u64)
    ensures
        r == time_divisor_spec(scale),
{
    match scale {
        0 => 1_000_000_000,
        1 => 100_000_000,
        2 => 10_000_000,
        3 => 1_000_000,
        4 => 100_000,
        5 => 10_000,
        6 => 1_000,
        7 => 100,
        _ => 100,
    }
}


/// The unit of a TIME, DATETIME2 or DATETIMEOFFSET value at scale `s` is
/// 10^-s seconds: 10^(9 - s) nanoseconds for scales up to 7, and 100
/// nanoseconds (the finest SQL Server keeps) above.
pub proof fn law_time_unit_is_ten_to_minus_scale(s: u8)
    ensures
        s <= 7 ==> time_divisor_spec(s) * crate::bulk_insert::pow10(s as nat) == 1_000_000_000,
        s > 7 ==> time_divisor_spec(s) == 100,
{
    reveal_with_fuel(crate::bulk_insert::pow10, 8);
    assert(crate::bulk_insert::pow10(0) == 1);
    assert(crate::bulk_insert::pow10(1) == 10);
    assert(crate::bulk_insert::pow10(2) == 100);
    assert(crate::bulk_insert::pow10(3) == 1000);
    assert(crate::bulk_insert::pow10(4) == 10000);
    assert(crate::bulk_insert::pow10(5) == 100000);
    assert(crate::bulk_insert::pow10(6) == 1000000);
    assert(crate::bulk_insert::pow10(7) == 10000000);
    if s <= 7 {
        assert(s == 0 || s == 1 || s == 2 || s == 3 || s == 4 || s == 5 || s == 6 || s == 7);
    }
}

/// The bytes of a time count at scale `s` (up to 7) are the fewest that
/// hold every count of a day: a day of units fits, and one byte less does
/// not.
pub proof fn law_time_length_fits_a_day(s: u8)
    requires
        s <= 7,
    ensures
        86400 * crate::bulk_insert::pow10(s as nat) <= crate::wire::pow256(time_len_spec(s) as nat),
        crate::wire::pow256((time_len_spec(s) - 1) as nat) < 86400 * crate::bulk_insert::pow10(s as nat),
{
    reveal_with_fuel(crate::bulk_insert::pow10, 8);
    reveal_with_fuel(crate::wire::pow256, 6);
    assert(crate::bulk_insert::pow10(0) == 1);
    assert(crate::bulk_insert::pow10(1) == 10);
    assert(crate::bulk_insert::pow10(2) == 100);
    assert(crate::bulk_insert::pow10(3) == 1000);
    assert(crate::bulk_insert::pow10(4) == 10000);
    assert(crate::bulk_insert::pow10(5) == 100000);
    assert(crate::bulk_insert::pow10(6) == 1000000);
    assert(crate::bulk_insert::pow10(7) == 10000000);
    assert(crate::wire::pow256(0) == 1);
    assert(crate::wire::pow256(1) == 256);
    assert(crate::wire::pow256(2) == 65536);
    assert(crate::wire::pow256(3) == 16777216);
    assert(crate::wire::pow256(4) == 4294967296);
    assert(crate::wire::pow256(5) == 1099511627776);
    assert(s == 0 || s == 1 || s == 2 || s == 3 || s == 4 || s == 5 || s == 6 || s == 7);
}


proof fn lemma_contains_concat(a: Seq<Seq<char>>, b: Seq<Seq<char>>, x: Seq<char>)
    ensures
        (a + b).contains(x) <==> a.contains(x) || b.contains(x),
{
    if (a + b).contains(x) {
        let i = choose|i: int| 0 <= i < (a + b).len() && (a + b)[i] == x;
        if i < a.len() {
            assert(a[i] == x);
        } else {
            assert(b[i - a.len()] == x);
        }
    }
    if a.contains(x) {
        let i = choose|i: int| 0 <= i < a.len() && a[i] == x;
        assert((a + b)[i] == x);
    }
    if b.contains(x) {
        let i = choose|i: int| 0 <= i < b.len() && b[i] == x;
        assert((a + b)[a.len() + i] == x);
    }
}

proof fn lemma_flag_hint_contains(f: bool, h: Seq<char>, x: Seq<char>)
    ensures
        flag_hint(f, h).contains(x) <==> f && x == h,
{
    if f {
        assert(flag_hint(f, h)[0] == h);
    }
}

/// The ORDER hint of the options, when they have one.
pub open spec fn order_hint_text(o: BulkOptions) -> Seq<char> {
    "ORDER("@ + join_spec(string_views(o.order_hint->0@), ", "@) + ")"@
}

proof fn lemma_hints_contains(o: BulkOptions, x: Seq<char>)
    ensures
        hints_spec(o).contains(x) <==> (o.check_constraints && x == "CHECK_CONSTRAINTS"@) || (
        o.fire_triggers && x == "FIRE_TRIGGERS"@) || (o.keep_nulls && x == "KEEP_NULLS"@) || (
        o.table_lock && x == "TABLOCK"@) || (o.batch_size > 0 && x == "ROWS_PER_BATCH = "@
            + nat_decimal(o.batch_size as nat)) || (o.order_hint is Some && x == order_hint_text(o)),
{
    let a = flag_hint(o.check_constraints, "CHECK_CONSTRAINTS"@);
    let b = flag_hint(o.fire_triggers, "FIRE_TRIGGERS"@);
    let c = flag_hint(o.keep_nulls, "KEEP_NULLS"@);
    let d = flag_hint(o.table_lock, "TABLOCK"@);
    let e = flag_hint(o.batch_size > 0, "ROWS_PER_BATCH = "@ + nat_decimal(o.batch_size as nat));
    let f = match o.order_hint {
        Some(v) => seq!["ORDER("@ + join_spec(string_views(v@), ", "@) + ")"@],
        None => Seq::<Seq<char>>::empty(),
    };
    lemma_contains_concat(a + b + c + d + e, f, x);
    lemma_contains_concat(a + b + c + d, e, x);
    lemma_contains_concat(a + b + c, d, x);
    lemma_contains_concat(a + b, c, x);
    lemma_contains_concat(a, b, x);
    lemma_flag_hint_contains(o.check_constraints, "CHECK_CONSTRAINTS"@, x);
    lemma_flag_hint_contains(o.fire_triggers, "FIRE_TRIGGERS"@, x);
    lemma_flag_hint_contains(o.keep_nulls, "KEEP_NULLS"@, x);
    lemma_flag_hint_contains(o.table_lock, "TABLOCK"@, x);
    lemma_flag_hint_contains(o.batch_size > 0, "ROWS_PER_BATCH = "@ + nat_decimal(o.batch_size as nat), x);
    if o.order_hint is Some {
        assert(f[0] == order_hint_text(o));
        if f.contains(x) {
            let i = choose|i: int| 0 <= i < f.len() && f[i] == x;
            assert(i == 0);
        }
    }
}

/// Each option of the `WITH (...)` clause is there exactly when it is
/// asked for: CHECK_CONSTRAINTS, FIRE_TRIGGERS (so insert triggers fire),
/// KEEP_NULLS and TABLOCK by their flags, ROWS_PER_BATCH with the batch
/// size when one is set, and ORDER when the options give an order.
pub proof fn law_hints_follow_options(o: BulkOptions)
    ensures
        hints_spec(o).contains("CHECK_CONSTRAINTS"@) <==> o.check_constraints,
        hints_spec(o).contains("FIRE_TRIGGERS"@) <==> o.fire_triggers,
        hints_spec(o).contains("KEEP_NULLS"@) <==> o.keep_nulls,
        hints_spec(o).contains("TABLOCK"@) <==> o.table_lock,
        hints_spec(o).contains("ROWS_PER_BATCH = "@ + nat_decimal(o.batch_size as nat)) <==> o.batch_size
            > 0,
        o.order_hint is Some ==> hints_spec(o).contains(order_hint_text(o)),
        o.order_hint is None ==> forall|i: int|
            0 <= i < hints_spec(o).len() ==> (#[trigger] hints_spec(o)[i])[0] != 'O',
{
    reveal_strlit("CHECK_CONSTRAINTS");
    reveal_strlit("FIRE_TRIGGERS");
    reveal_strlit("KEEP_NULLS");
    reveal_strlit("TABLOCK");
    reveal_strlit("ROWS_PER_BATCH = ");
    reveal_strlit("ORDER(");
    let r = "ROWS_PER_BATCH = "@ + nat_decimal(o.batch_size as nat);
    assert(r[0] == 'R');
    assert("CHECK_CONSTRAINTS"@[0] == 'C');
    assert("FIRE_TRIGGERS"@[0] == 'F');
    assert("KEEP_NULLS"@[0] == 'K');
    assert("TABLOCK"@[0] == 'T');
    assert("CHECK_CONSTRAINTS"@ != "FIRE_TRIGGERS"@);
    assert("CHECK_CONSTRAINTS"@ != "KEEP_NULLS"@);
    assert("CHECK_CONSTRAINTS"@ != "TABLOCK"@);
    assert("CHECK_CONSTRAINTS"@ != r);
    assert("FIRE_TRIGGERS"@ != "KEEP_NULLS"@);
    assert("FIRE_TRIGGERS"@ != "TABLOCK"@);
    assert("FIRE_TRIGGERS"@ != r);
    assert("KEEP_NULLS"@ != "TABLOCK"@);
    assert("KEEP_NULLS"@ != r);
    assert("TABLOCK"@ != r);
    if o.order_hint is Some {
        assert(order_hint_text(o)[0] == 'O');
        assert("CHECK_CONSTRAINTS"@ != order_hint_text(o));
        assert("FIRE_TRIGGERS"@ != order_hint_text(o));
        assert("KEEP_NULLS"@ != order_hint_text(o));
        assert("TABLOCK"@ != order_hint_text(o));
        assert(r != order_hint_text(o));
    }
    lemma_hints_contains(o, "CHECK_CONSTRAINTS"@);
    lemma_hints_contains(o, "FIRE_TRIGGERS"@);
    lemma_hints_contains(o, "KEEP_NULLS"@);
    lemma_hints_contains(o, "TABLOCK"@);
    lemma_hints_contains(o, r);
    if o.order_hint is Some {
        lemma_hints_contains(o, order_hint_text(o));
    } else {
        assert forall|i: int| 0 <= i < hints_spec(o).len() implies (#[trigger] hints_spec(o)[i])[0] != 'O' by {
            let x = hints_spec(o)[i];
            assert(hints_spec(o).contains(x));
            lemma_hints_contains(o, x);
        }
    }
}


/// Whether `w` occurs in `t` as a run of consecutive characters.
pub open spec fn has_infix(t: Seq<char>, w: Seq<char>) -> bool {
    exists|i: int| 0 <= i && i + w.len() <= t.len() && #[trigger] t.subrange(i, i + w.len()) == w
}

proof fn lemma_join_has_item(items: Seq<Seq<char>>, sep: Seq<char>, w: Seq<char>)
    requires
        items.contains(w),
    ensures
        has_infix(join_spec(items, sep), w),
    decreases items.len(),
{
    let j = join_spec(items, sep);
    if items.len() == 1 {
        assert(items[0] == w);
        let z: int = 0;
        assert(j.subrange(z, z + w.len()) =~= w);
    } else if items.last() == w {
        let p: int = join_spec(items.drop_last(), sep).len() as int + sep.len() as int;
        assert(j.subrange(p, p + w.len()) =~= w);
    } else {
        let k = choose|k: int| 0 <= k < items.len() && items[k] == w;
        assert(items.drop_last()[k] == w);
        lemma_join_has_item(items.drop_last(), sep, w);
        let i = choose|i: int|
            0 <= i && i + w.len() <= join_spec(items.drop_last(), sep).len()
                && #[trigger] join_spec(items.drop_last(), sep).subrange(i, i + w.len()) == w;
        assert(j.subrange(i, i + w.len()) =~= join_spec(items.drop_last(), sep).subrange(i, i + w.len()));
    }
}

/// Every hint of the options is written into the `INSERT BULK` statement;
/// in particular a statement for options that fire triggers names
/// FIRE_TRIGGERS.
pub proof fn law_statement_carries_hints(b: BuilderView, h: Seq<char>)
    ensures
        hints_spec(b.options).contains(h) ==> has_infix(insert_bulk_text(b), h),
        b.options.fire_triggers ==> has_infix(insert_bulk_text(b), "FIRE_TRIGGERS"@),
{
    law_hints_follow_options(b.options);
    let hints = hints_spec(b.options);
    assert forall|w: Seq<char>| hints.contains(w) implies has_infix(insert_bulk_text(b), w) by {
        lemma_join_has_item(hints, ", "@, w);
        let j = join_spec(hints, ", "@);
        let i = choose|i: int| 0 <= i && i + w.len() <= j.len() && #[trigger] j.subrange(i, i + w.len()) == w;
        let cols = b.columns.map_values(|c: ColumnView| column_def(c));
        let head = "INSERT BULK "@ + b.table + (if cols.len() > 0 {
            " ("@ + join_spec(cols, ", "@) + ")"@
        } else {
            Seq::empty()
        }) + " WITH ("@;
        let t = insert_bulk_text(b);
        assert(t =~= head + j + ")"@);
        assert(t.subrange(head.len() + i, head.len() + i + w.len()) =~= j.subrange(i, i + w.len()));
    }
}


/// The bytes of a DECIMAL value at precision `p` (1 to 38) are a sign byte
/// and the fewest groups of four bytes that hold every mantissa of `p`
/// digits: 10^p fits in them, and four bytes fewer do not hold it.
pub proof fn law_decimal_length_fits_precision(p: u8)
    requires
        1 <= p <= 38,
    ensures
        crate::bulk_insert::pow10(p as nat) <= crate::wire::pow256((decimal_len_spec(p) - 1) as nat),
        decimal_len_spec(p) == 5 || crate::wire::pow256((decimal_len_spec(p) - 5) as nat)
            < crate::bulk_insert::pow10(p as nat),
{
    reveal_with_fuel(crate::bulk_insert::pow10, 39);
    reveal_with_fuel(crate::wire::pow256, 17);
    assert(crate::bulk_insert::pow10(9) == 1_000_000_000);
    assert(crate::bulk_insert::pow10(10) == 10_000_000_000);
    assert(crate::bulk_insert::pow10(19) == 10_000_000_000_000_000_000);
    assert(crate::bulk_insert::pow10(20) == 100_000_000_000_000_000_000);
    assert(crate::bulk_insert::pow10(28) == 10_000_000_000_000_000_000_000_000_000);
    assert(crate::bulk_insert::pow10(29) == 100_000_000_000_000_000_000_000_000_000);
    assert(crate::bulk_insert::pow10(38) == 100_000_000_000_000_000_000_000_000_000_000_000_000);
    assert(crate::wire::pow256(4) == 0x1_0000_0000);
    assert(crate::wire::pow256(8) == 0x1_0000_0000_0000_0000);
    assert(crate::wire::pow256(12) == 0x1_0000_0000_0000_0000_0000_0000);
    assert(crate::wire::pow256(16) == 0x1_0000_0000_0000_0000_0000_0000_0000_0000);
    if p <= 9 {
        crate::bulk_insert::lemma_pow10_mono(p as nat, 9);
    } else if p <= 19 {
        crate::bulk_insert::lemma_pow10_mono(p as nat, 19);
        crate::bulk_insert::lemma_pow10_mono(10, p as nat);
    } else if p <= 28 {
        crate::bulk_insert::lemma_pow10_mono(p as nat, 28);
        crate::bulk_insert::lemma_pow10_mono(20, p as nat);
    } else {
        crate::bulk_insert::lemma_pow10_mono(p as nat, 38);
        crate::bulk_insert::lemma_pow10_mono(29, p as nat);
    }
}

} // verus!

//! SQL Server Change Tracking support: change operations, CHANGETABLE query
//! builders, helper statements and sync-version checks.
use vstd::prelude::*;
use crate::text::{
    ascii_upper_seq, chars_of, int_decimal, nat_decimal, push_decimal_u64, is_ascii_seq, is_ws, join_spec, push_chars,
    push_decimal_i64, push_joined, push_str_chars, string_of, string_views, strings_of, trim,
    trim_end_spec, trim_spec, trim_start_spec, unicode_uppercase, uppercase_chars, views_of,
};

verus! {

/// The type of change recorded in `SYS_CHANGE_OPERATION`.
#[derive(Debug, Clone, Copy, PartialEq, Eq, Hash, Structural)]
#[non_exhaustive]
pub enum ChangeOperation {
    /// A new row was inserted (I).
    Insert,
    /// An existing row was updated (U).
    Update,
    /// A row was deleted (D).
    Delete,
}

/// The single-letter SQL Server code of an operation.
pub open spec fn op_code(op: ChangeOperation) -> Seq<char> {
    match op {
        ChangeOperation::Insert => seq!['I'],
        ChangeOperation::Update => seq!['U'],
        ChangeOperation::Delete => seq!['D'],
    }
}

/// The operation whose code is exactly `u`, if any.
pub open spec fn op_of_code(u: Seq<char>) -> Option<ChangeOperation> {
    if u == seq!['I'] {
        Some(ChangeOperation::Insert)
    } else if u == seq!['U'] {
        Some(ChangeOperation::Update)
    } else if u == seq!['D'] {
        Some(ChangeOperation::Delete)
    } else {
        None
    }
}

/// What `ChangeOperation::from_sql` returns: the input is trimmed,
/// upper-cased with `str::to_uppercase`, and compared with I, U and D.
pub open spec fn from_sql_spec(s: Seq<char>) -> Option<ChangeOperation> {
    op_of_code(unicode_uppercase(trim_spec(s)))
}

/// The display name of an operation.
pub open spec fn op_display(op: ChangeOperation) -> Seq<char> {
    match op {
        ChangeOperation::Insert => "INSERT"@,
        ChangeOperation::Update => "UPDATE"@,
        ChangeOperation::Delete => "DELETE"@,
    }
}

fn code_of_chars(u: &[char]) -> (r: Option<ChangeOperation>)
    ensures
        r == op_of_code(u@),
{
    if u.len() != 1 {
        proof {
            assert(seq!['I'].len() == 1);
        }
        return None;
    }
    let c = u[0];
    proof {
        if c == 'I' {
            assert(u@ =~= seq!['I']);
        }
        if c == 'U' {
            assert(u@ =~= seq!['U']);
        }
        if c == 'D' {
            assert(u@ =~= seq!['D']);
        }
    }
    if c == 'I' {
        Some(ChangeOperation::Insert)
    } else if c == 'U' {
        Some(ChangeOperation::Update)
    } else if c == 'D' {
        Some(ChangeOperation::Delete)
    } else {
        None
    }
}

impl ChangeOperation {
    /// Parses an operation from its single-character SQL Server code
    /// (`I`, `U` or `D`, surrounding whitespace and case ignored).
    pub fn from_sql(s: &str) -> (r: Option<Self>)
        ensures
            r == from_sql_spec(s@),
            is_ascii_seq(trim_spec(s@)) ==> r == op_of_code(ascii_upper_seq(trim_spec(s@))),
    {
        let v = chars_of(s);
        let t = trim(v.as_slice());
        let u = uppercase_chars(t.as_slice());
        code_of_chars(u.as_slice())
    }

    /// The SQL Server single-character code.
    pub fn as_sql(&self) -> (r: &'static str)
        ensures
            r@ == op_code(*self),
    {
        proof {
            reveal_strlit("I");
            reveal_strlit("U");
            reveal_strlit("D");
        }
        match self {
            ChangeOperation::Insert => "I",
            ChangeOperation::Update => "U",
            ChangeOperation::Delete => "D",
        }
    }

    /// Whether this is an insert.
    pub fn is_insert(&self) -> (r: bool)
        ensures
            r == (*self == ChangeOperation::Insert),
    {
        matches!(self, ChangeOperation::Insert)
    }

    /// Whether this is an update.
    pub fn is_update(&self) -> (r: bool)
        ensures
            r == (*self == ChangeOperation::Update),
    {
        matches!(self, ChangeOperation::Update)
    }

    /// Whether this is a delete.
    pub fn is_delete(&self) -> (r: bool)
        ensures
            r == (*self == ChangeOperation::Delete),
    {
        matches!(self, ChangeOperation::Delete)
    }

    /// The display name (`INSERT`, `UPDATE` or `DELETE`).
    pub fn to_string(&self) -> (r: String)
        ensures
            r@ == op_display(*self),
    {
        let s = match self {
            ChangeOperation::Insert => "INSERT",
            ChangeOperation::Update => "UPDATE",
            ChangeOperation::Delete => "DELETE",
        };
        let v = chars_of(s);
        string_of(v.as_slice())
    }
}

/// Parsing the code that `as_sql` gives back yields the same operation.
pub proof fn law_from_sql_inverts_as_sql(op: ChangeOperation)
    ensures
        is_ascii_seq(trim_spec(op_code(op))),
        op_of_code(ascii_upper_seq(trim_spec(op_code(op)))) == Some(op),
{
    let c = op_code(op);
    assert(c.len() == 1);
    assert(!is_ws(c[0]));
    assert(c.drop_last().len() == 0);
    assert(trim_start_spec(c) == c);
    assert(trim_end_spec(c) == c);
    assert(ascii_upper_seq(c) =~= c);
}

/// Exactly one of the three operation predicates holds.
pub proof fn law_operation_predicates_exclusive(op: ChangeOperation)
    ensures
        (op == ChangeOperation::Insert) || (op == ChangeOperation::Update) || (op
            == ChangeOperation::Delete),
        !((op == ChangeOperation::Insert) && (op == ChangeOperation::Update)),
        !((op == ChangeOperation::Insert) && (op == ChangeOperation::Delete)),
        !((op == ChangeOperation::Update) && (op == ChangeOperation::Delete)),
{
}

/// Metadata of one row in a `CHANGETABLE(CHANGES ...)` result.
#[derive(Debug, Clone)]
pub struct ChangeMetadata {
    /// The version at which the row was last changed.
    pub version: i64,
    /// The version at which the row was inserted (`None` for deletes).
    pub creation_version: Option<i64>,
    /// The kind of change.
    pub operation: ChangeOperation,
    /// Binary mask of changed columns.
    pub changed_columns: Option<Vec<u8>>,
    /// Application-defined change context.
    pub context: Option<Vec<u8>>,
}

impl ChangeMetadata {
    /// Creates change metadata from all of its parts.
    pub fn new(
        version: i64,
        creation_version: Option<i64>,
        operation: ChangeOperation,
        changed_columns: Option<Vec<u8>>,
        context: Option<Vec<u8>>,
    ) -> (r: Self)
        ensures
            r.version == version,
            r.creation_version == creation_version,
            r.operation == operation,
            r.changed_columns == changed_columns,
            r.context == context,
    {
        ChangeMetadata { version, creation_version, operation, changed_columns, context }
    }

    /// Metadata for an insert: the row was created at `version`.
    pub fn insert(version: i64) -> (r: Self)
        ensures
            r.version == version,
            r.creation_version == Some(version),
            r.operation == ChangeOperation::Insert,
            r.changed_columns is None,
            r.context is None,
    {
        ChangeMetadata {
            version,
            creation_version: Some(version),
            operation: ChangeOperation::Insert,
            changed_columns: None,
            context: None,
        }
    }

    /// Metadata for an update of a row created at `creation_version`.
    pub fn update(version: i64, creation_version: i64) -> (r: Self)
        ensures
            r.version == version,
            r.creation_version == Some(creation_version),
            r.operation == ChangeOperation::Update,
            r.changed_columns is None,
            r.context is None,
    {
        ChangeMetadata {
            version,
            creation_version: Some(creation_version),
            operation: ChangeOperation::Update,
            changed_columns: None,
            context: None,
        }
    }

    /// Metadata for a delete (no creation version).
    pub fn delete(version: i64) -> (r: Self)
        ensures
            r.version == version,
            r.creation_version is None,
            r.operation == ChangeOperation::Delete,
            r.changed_columns is None,
            r.context is None,
    {
        ChangeMetadata {
            version,
            creation_version: None,
            operation: ChangeOperation::Delete,
            changed_columns: None,
            context: None,
        }
    }
}


/// Query builder for `CHANGETABLE(CHANGES ...)` queries.
#[derive(Debug, Clone)]
pub struct ChangeTrackingQuery {
    table_name: String,
    last_sync_version: i64,
    columns: Option<Vec<String>>,
    primary_keys: Option<Vec<String>>,
    alias: String,
    force_seek: bool,
}

/// The abstract content of a [`ChangeTrackingQuery`].
pub ghost struct QueryView {
    pub table: Seq<char>,
    pub version: i64,
    pub columns: Option<Seq<Seq<char>>>,
    pub primary_keys: Option<Seq<Seq<char>>>,
    pub alias: Seq<char>,
    pub force_seek: bool,
}

pub open spec fn opt_string_views(o: Option<Vec<String>>) -> Option<Seq<Seq<char>>> {
    match o {
        Some(v) => Some(string_views(v@)),
        None => None,
    }
}

impl View for ChangeTrackingQuery {
    type V = QueryView;

    closed spec fn view(&self) -> QueryView {
        QueryView {
            table: self.table_name@,
            version: self.last_sync_version,
            columns: opt_string_views(self.columns),
            primary_keys: opt_string_views(self.primary_keys),
            alias: self.alias@,
            force_seek: self.force_seek,
        }
    }
}

/// The list in an optional list, or the empty list.
pub open spec fn list_or_empty(o: Option<Seq<Seq<char>>>) -> Seq<Seq<char>> {
    match o {
        Some(l) => l,
        None => Seq::empty(),
    }
}

/// Each name qualified by `alias.`.
pub open spec fn qualified_all(alias: Seq<char>, names: Seq<Seq<char>>) -> Seq<Seq<char>> {
    names.map_values(|n: Seq<char>| alias + seq!['.'] + n)
}

/// The five change tracking system columns qualified by `alias`.
pub open spec fn system_columns(alias: Seq<char>) -> Seq<Seq<char>> {
    seq![
        alias + ".SYS_CHANGE_VERSION"@,
        alias + ".SYS_CHANGE_CREATION_VERSION"@,
        alias + ".SYS_CHANGE_OPERATION"@,
        alias + ".SYS_CHANGE_COLUMNS"@,
        alias + ".SYS_CHANGE_CONTEXT"@,
    ]
}

/// The SELECT list of `to_sql`: system columns, then primary keys, then
/// data columns, each qualified by the alias, joined by `, `.
pub open spec fn select_columns_spec(q: QueryView) -> Seq<char> {
    join_spec(
        system_columns(q.alias) + qualified_all(q.alias, list_or_empty(q.primary_keys))
            + qualified_all(q.alias, list_or_empty(q.columns)),
        ", "@,
    )
}

pub open spec fn force_seek_hint(b: bool) -> Seq<char> {
    if b {
        ", FORCESEEK"@
    } else {
        Seq::empty()
    }
}

/// The text `to_sql` produces: the CHANGETABLE result bound to the alias
/// that qualifies the selected columns.
pub open spec fn to_sql_spec(q: QueryView) -> Seq<char> {
    "SELECT "@ + select_columns_spec(q) + " FROM CHANGETABLE(CHANGES "@ + q.table + ", "@
        + int_decimal(q.version as int) + force_seek_hint(q.force_seek) + ") AS "@ + q.alias
}

/// Data columns taken from the joined table `T`.
pub open spec fn data_items(cols: Seq<Seq<char>>) -> Seq<Seq<char>> {
    cols.map_values(|c: Seq<char>| "T."@ + c)
}

/// The join condition of `to_sql_with_data`.
pub open spec fn join_condition_spec(alias: Seq<char>, pks: Option<Seq<Seq<char>>>) -> Seq<char> {
    match pks {
        Some(p) => join_spec(
            p.map_values(|k: Seq<char>| alias + seq!['.'] + k + " = T."@ + k),
            " AND "@,
        ),
        None => "1=1"@,
    }
}

/// The primary key list of `to_sql_with_data` (empty without keys).
pub open spec fn pk_list_spec(alias: Seq<char>, pks: Option<Seq<Seq<char>>>) -> Seq<char> {
    match pks {
        Some(p) => join_spec(qualified_all(alias, p), ", "@),
        None => Seq::empty(),
    }
}

/// The text `to_sql_with_data` produces.
pub open spec fn to_sql_with_data_spec(q: QueryView, data: Seq<Seq<char>>) -> Seq<char> {
    let ct = join_spec(system_columns(q.alias), ", "@);
    let dc = join_spec(data_items(data), ", "@);
    let pk = pk_list_spec(q.alias, q.primary_keys);
    let select = if pk.len() == 0 {
        ct + ", "@ + dc
    } else {
        ct + ", "@ + pk + ", "@ + dc
    };
    "SELECT "@ + select + " FROM CHANGETABLE(CHANGES "@ + q.table + ", "@ + int_decimal(
        q.version as int,
    ) + force_seek_hint(q.force_seek) + ") AS "@ + q.alias + " LEFT OUTER JOIN "@ + q.table
        + " AS T ON "@ + join_condition_spec(q.alias, q.primary_keys)
}

/// `prefix.name`
fn qualify(prefix: &[char], name: &[char]) -> (r: Vec<char>)
    ensures
        r@ == prefix@ + seq!['.'] + name@,
{
    let mut out: Vec<char> = Vec::new();
    push_chars(&mut out, prefix);
    out.push('.');
    push_chars(&mut out, name);
    assert(out@ =~= prefix@ + seq!['.'] + name@);
    out
}

/// `prefix` followed by a literal suffix.
fn with_suffix(prefix: &[char], suffix: &str) -> (r: Vec<char>)
    ensures
        r@ == prefix@ + suffix@,
{
    let mut out: Vec<char> = Vec::new();
    push_chars(&mut out, prefix);
    push_str_chars(&mut out, suffix);
    assert(out@ =~= prefix@ + suffix@);
    out
}

/// The five system columns qualified by the alias.
fn system_column_items(alias: &[char]) -> (r: Vec<Vec<char>>)
    ensures
        views_of(r@) == system_columns(alias@),
{
    let mut items: Vec<Vec<char>> = Vec::new();
    items.push(with_suffix(alias, ".SYS_CHANGE_VERSION"));
    items.push(with_suffix(alias, ".SYS_CHANGE_CREATION_VERSION"));
    items.push(with_suffix(alias, ".SYS_CHANGE_OPERATION"));
    items.push(with_suffix(alias, ".SYS_CHANGE_COLUMNS"));
    items.push(with_suffix(alias, ".SYS_CHANGE_CONTEXT"));
    assert(views_of(items@) =~= system_columns(alias@));
    items
}

/// Appends each name qualified by the alias to `items`.
fn push_qualified(items: &mut Vec<Vec<char>>, alias: &[char], names: &Vec<String>)
    ensures
        views_of(final(items)@) == views_of(old(items)@) + qualified_all(
            alias@,
            string_views(names@),
        ),
{
    let ghost start = views_of(items@);
    let ghost target = qualified_all(alias@, string_views(names@));
    let mut i: usize = 0;
    while i < names.len()
        invariant
            i <= names.len(),
            start == views_of(old(items)@),
            target == qualified_all(alias@, string_views(names@)),
            views_of(items@) == start + target.take(i as int),
        decreases names.len() - i,
    {
        let n = chars_of(names[i].as_str());
        let q = qualify(alias, n.as_slice());
        let ghost prev = items@;
        items.push(q);
        assert(target[i as int] == q@);
        assert(views_of(items@) =~= views_of(prev).push(q@));
        assert(views_of(items@) =~= start + target.take(i + 1));
        i = i + 1;
    }
    assert(target.take(names.len() as int) =~= target);
}

/// `T.c` for each data column.
fn data_column_items(cols: &[&str]) -> (r: Vec<Vec<char>>)
    ensures
        views_of(r@) == data_items(cols@.map_values(|s: &str| s@)),
{
    let ghost target = data_items(cols@.map_values(|s: &str| s@));
    let mut items: Vec<Vec<char>> = Vec::new();
    let mut i: usize = 0;
    while i < cols.len()
        invariant
            i <= cols.len(),
            target == data_items(cols@.map_values(|s: &str| s@)),
            views_of(items@) == target.take(i as int),
        decreases cols.len() - i,
    {
        let mut item: Vec<char> = Vec::new();
        push_str_chars(&mut item, "T.");
        push_str_chars(&mut item, cols[i]);
        let ghost prev = items@;
        items.push(item);
        assert(target[i as int] == item@);
        assert(views_of(items@) =~= views_of(prev).push(item@));
        assert(views_of(items@) =~= target.take(i + 1));
        i = i + 1;
    }
    assert(target.take(cols.len() as int) =~= target);
    items
}

/// `alias.k = T.k` for each key.
fn join_condition_items(alias: &[char], keys: &Vec<String>) -> (r: Vec<Vec<char>>)
    ensures
        views_of(r@) == string_views(keys@).map_values(
            |k: Seq<char>| alias@ + seq!['.'] + k + " = T."@ + k,
        ),
{
    let ghost target = string_views(keys@).map_values(
        |k: Seq<char>| alias@ + seq!['.'] + k + " = T."@ + k,
    );
    let mut items: Vec<Vec<char>> = Vec::new();
    let mut i: usize = 0;
    while i < keys.len()
        invariant
            i <= keys.len(),
            target == string_views(keys@).map_values(
                |k: Seq<char>| alias@ + seq!['.'] + k + " = T."@ + k,
            ),
            views_of(items@) == target.take(i as int),
        decreases keys.len() - i,
    {
        let k = chars_of(keys[i].as_str());
        let mut item = qualify(alias, k.as_slice());
        push_str_chars(&mut item, " = T.");
        push_chars(&mut item, k.as_slice());
        let ghost prev = items@;
        items.push(item);
        assert(target[i as int] =~= item@);
        assert(views_of(items@) =~= views_of(prev).push(item@));
        assert(views_of(items@) =~= target.take(i + 1));
        i = i + 1;
    }
    assert(target.take(keys.len() as int) =~= target);
    items
}

impl ChangeTrackingQuery {
    /// A query for the changes to `table_name` since `last_sync_version`,
    /// with alias `CT`, no extra columns and no FORCESEEK hint.
    pub fn changes(table_name: &str, last_sync_version: i64) -> (r: Self)
        ensures
            r@.table == table_name@,
            r@.version == last_sync_version,
            r@.columns is None,
            r@.primary_keys is None,
            r@.alias == "CT"@,
            !r@.force_seek,
    {
        let t = chars_of(table_name);
        let a = chars_of("CT");
        ChangeTrackingQuery {
            table_name: string_of(t.as_slice()),
            last_sync_version,
            columns: None,
            primary_keys: None,
            alias: string_of(a.as_slice()),
            force_seek: false,
        }
    }

    /// Selects the data columns to include besides the system columns.
    pub fn with_columns(self, columns: &[&str]) -> (r: Self)
        ensures
            r@ == (QueryView {
                columns: Some(columns@.map_values(|s: &str| s@)),
                ..self@
            }),
    {
        let cols = strings_of(columns);
        ChangeTrackingQuery { columns: Some(cols), ..self }
    }

    /// Sets the primary key columns of the table.
    pub fn with_primary_keys(self, keys: &[&str]) -> (r: Self)
        ensures
            r@ == (QueryView {
                primary_keys: Some(keys@.map_values(|s: &str| s@)),
                ..self@
            }),
    {
        let ks = strings_of(keys);
        ChangeTrackingQuery { primary_keys: Some(ks), ..self }
    }

    /// Sets the alias of the CHANGETABLE result.
    pub fn with_alias(self, alias: &str) -> (r: Self)
        ensures
            r@ == (QueryView { alias: alias@, ..self@ }),
    {
        let a = chars_of(alias);
        ChangeTrackingQuery { alias: string_of(a.as_slice()), ..self }
    }

    /// Adds the FORCESEEK hint.
    pub fn with_force_seek(self) -> (r: Self)
        ensures
            r@ == (QueryView { force_seek: true, ..self@ }),
    {
        ChangeTrackingQuery { force_seek: true, ..self }
    }

    /// The SELECT list: system columns, primary keys, data columns.
    fn build_select_columns(&self) -> (r: Vec<char>)
        ensures
            r@ == select_columns_spec(self@),
    {
        let alias = chars_of(self.alias.as_str());
        let mut items = system_column_items(alias.as_slice());
        let ghost sys = views_of(items@);
        match &self.primary_keys {
            Some(pks) => {
                push_qualified(&mut items, alias.as_slice(), pks);
            },
            None => {
                assert(qualified_all(alias@, Seq::<Seq<char>>::empty()) =~= Seq::<
                    Seq<char>,
                >::empty());
                assert(views_of(items@) =~= sys + qualified_all(alias@, Seq::empty()));
            },
        }
        let ghost mid = views_of(items@);
        match &self.columns {
            Some(cs) => {
                push_qualified(&mut items, alias.as_slice(), cs);
            },
            None => {
                assert(views_of(items@) =~= mid + qualified_all(alias@, Seq::empty()));
            },
        }
        let mut out: Vec<char> = Vec::new();
        let sep = chars_of(", ");
        push_joined(&mut out, &items, sep.as_slice());
        assert(out@ =~= select_columns_spec(self@));
        out
    }

    /// The CHANGETABLE query text.
    pub fn to_sql(&self) -> (r: String)
        ensures
            r@ == to_sql_spec(self@),
    {
        let select = self.build_select_columns();
        let mut out: Vec<char> = Vec::new();
        push_str_chars(&mut out, "SELECT ");
        push_chars(&mut out, select.as_slice());
        push_str_chars(&mut out, " FROM CHANGETABLE(CHANGES ");
        let t = chars_of(self.table_name.as_str());
        push_chars(&mut out, t.as_slice());
        push_str_chars(&mut out, ", ");
        push_decimal_i64(&mut out, self.last_sync_version);
        if self.force_seek {
            push_str_chars(&mut out, ", FORCESEEK");
        }
        push_str_chars(&mut out, ") AS ");
        let a = chars_of(self.alias.as_str());
        push_chars(&mut out, a.as_slice());
        assert(out@ =~= to_sql_spec(self@));
        string_of(out.as_slice())
    }

    /// A CHANGETABLE query joined with the tracked table (alias `T`) to
    /// return the current values of `data_columns`.
    pub fn to_sql_with_data(&self, data_columns: &[&str]) -> (r: String)
        ensures
            r@ == to_sql_with_data_spec(self@, data_columns@.map_values(|s: &str| s@)),
    {
        let ghost q = self@;
        let alias = chars_of(self.alias.as_str());
        let comma = chars_of(", ");
        let sys = system_column_items(alias.as_slice());
        let mut ct: Vec<char> = Vec::new();
        push_joined(&mut ct, &sys, comma.as_slice());
        let ditems = data_column_items(data_columns);
        let mut dc: Vec<char> = Vec::new();
        push_joined(&mut dc, &ditems, comma.as_slice());
        let mut pk: Vec<char> = Vec::new();
        let mut cond: Vec<char> = Vec::new();
        match &self.primary_keys {
            Some(pks) => {
                let mut pitems: Vec<Vec<char>> = Vec::new();
                push_qualified(&mut pitems, alias.as_slice(), pks);
                assert(views_of(pitems@) =~= qualified_all(alias@, string_views(pks@)));
                push_joined(&mut pk, &pitems, comma.as_slice());
                let citems = join_condition_items(alias.as_slice(), pks);
                let and = chars_of(" AND ");
                push_joined(&mut cond, &citems, and.as_slice());
            },
            None => {
                push_str_chars(&mut cond, "1=1");
            },
        }
        assert(pk@ =~= pk_list_spec(q.alias, q.primary_keys));
        assert(cond@ =~= join_condition_spec(q.alias, q.primary_keys));
        let mut out: Vec<char> = Vec::new();
        push_str_chars(&mut out, "SELECT ");
        push_chars(&mut out, ct.as_slice());
        push_str_chars(&mut out, ", ");
        if pk.len() > 0 {
            push_chars(&mut out, pk.as_slice());
            push_str_chars(&mut out, ", ");
        }
        push_chars(&mut out, dc.as_slice());
        push_str_chars(&mut out, " FROM CHANGETABLE(CHANGES ");
        let t = chars_of(self.table_name.as_str());
        push_chars(&mut out, t.as_slice());
        push_str_chars(&mut out, ", ");
        push_decimal_i64(&mut out, self.last_sync_version);
        if self.force_seek {
            push_str_chars(&mut out, ", FORCESEEK");
        }
        push_str_chars(&mut out, ") AS ");
        push_chars(&mut out, alias.as_slice());
        push_str_chars(&mut out, " LEFT OUTER JOIN ");
        push_chars(&mut out, t.as_slice());
        push_str_chars(&mut out, " AS T ON ");
        push_chars(&mut out, cond.as_slice());
        assert(out@ =~= to_sql_with_data_spec(q, data_columns@.map_values(|s: &str| s@)));
        string_of(out.as_slice())
    }
}


/// Helper statements for Change Tracking.
pub struct ChangeTracking;

pub open spec fn on_off(b: bool) -> Seq<char> {
    if b {
        "ON"@
    } else {
        "OFF"@
    }
}

impl ChangeTracking {
    /// `SELECT CHANGE_TRACKING_CURRENT_VERSION()`
    pub fn current_version_sql() -> (r: &'static str)
        ensures
            r@ == "SELECT CHANGE_TRACKING_CURRENT_VERSION()"@,
    {
        "SELECT CHANGE_TRACKING_CURRENT_VERSION()"
    }

    /// The minimum valid version of a table.
    pub fn min_valid_version_sql(table_name: &str) -> (r: String)
        ensures
            r@ == "SELECT CHANGE_TRACKING_MIN_VALID_VERSION(OBJECT_ID(N'"@ + table_name@
                + "'))"@,
    {
        let mut out: Vec<char> = Vec::new();
        push_str_chars(&mut out, "SELECT CHANGE_TRACKING_MIN_VALID_VERSION(OBJECT_ID(N'");
        push_str_chars(&mut out, table_name);
        push_str_chars(&mut out, "'))");
        assert(out@ =~= "SELECT CHANGE_TRACKING_MIN_VALID_VERSION(OBJECT_ID(N'"@ + table_name@
            + "'))"@);
        string_of(out.as_slice())
    }

    /// Whether a column is in a change mask held by `mask_variable`.
    pub fn column_in_mask_sql(table_name: &str, column_name: &str, mask_variable: &str) -> (r:
        String)
        ensures
            r@ == "SELECT CHANGE_TRACKING_IS_COLUMN_IN_MASK(COLUMNPROPERTY(OBJECT_ID(N'"@
                + table_name@ + "'), N'"@ + column_name@ + "', 'ColumnId'), "@ + mask_variable@
                + ")"@,
    {
        let mut out: Vec<char> = Vec::new();
        push_str_chars(
            &mut out,
            "SELECT CHANGE_TRACKING_IS_COLUMN_IN_MASK(COLUMNPROPERTY(OBJECT_ID(N'",
        );
        push_str_chars(&mut out, table_name);
        push_str_chars(&mut out, "'), N'");
        push_str_chars(&mut out, column_name);
        push_str_chars(&mut out, "', 'ColumnId'), ");
        push_str_chars(&mut out, mask_variable);
        push_str_chars(&mut out, ")");
        assert(out@ =~= "SELECT CHANGE_TRACKING_IS_COLUMN_IN_MASK(COLUMNPROPERTY(OBJECT_ID(N'"@
            + table_name@ + "'), N'"@ + column_name@ + "', 'ColumnId'), "@ + mask_variable@
            + ")"@);
        string_of(out.as_slice())
    }

    /// Enables change tracking on a database.
    pub fn enable_database_sql(database_name: &str, retention_days: u32, auto_cleanup: bool) -> (r:
        String)
        ensures
            r@ == "ALTER DATABASE ["@ + database_name@
                + "] SET CHANGE_TRACKING = ON (CHANGE_RETENTION = "@ + nat_decimal(
                retention_days as nat,
            ) + " DAYS, AUTO_CLEANUP = "@ + on_off(auto_cleanup) + ")"@,
    {
        let mut out: Vec<char> = Vec::new();
        push_str_chars(&mut out, "ALTER DATABASE [");
        push_str_chars(&mut out, database_name);
        push_str_chars(&mut out, "] SET CHANGE_TRACKING = ON (CHANGE_RETENTION = ");
        push_decimal_u64(&mut out, retention_days as u64);
        push_str_chars(&mut out, " DAYS, AUTO_CLEANUP = ");
        if auto_cleanup {
            push_str_chars(&mut out, "ON");
        } else {
            push_str_chars(&mut out, "OFF");
        }
        push_str_chars(&mut out, ")");
        assert(out@ =~= "ALTER DATABASE ["@ + database_name@
            + "] SET CHANGE_TRACKING = ON (CHANGE_RETENTION = "@ + nat_decimal(
            retention_days as nat,
        ) + " DAYS, AUTO_CLEANUP = "@ + on_off(auto_cleanup) + ")"@);
        string_of(out.as_slice())
    }

    /// Enables change tracking on a table.
    pub fn enable_table_sql(table_name: &str, track_columns_updated: bool) -> (r: String)
        ensures
            r@ == "ALTER TABLE ["@ + table_name@
                + "] ENABLE CHANGE_TRACKING WITH (TRACK_COLUMNS_UPDATED = "@ + on_off(
                track_columns_updated,
            ) + ")"@,
    {
        let mut out: Vec<char> = Vec::new();
        push_str_chars(&mut out, "ALTER TABLE [");
        push_str_chars(&mut out, table_name);
        push_str_chars(&mut out, "] ENABLE CHANGE_TRACKING WITH (TRACK_COLUMNS_UPDATED = ");
        if track_columns_updated {
            push_str_chars(&mut out, "ON");
        } else {
            push_str_chars(&mut out, "OFF");
        }
        push_str_chars(&mut out, ")");
        assert(out@ =~= "ALTER TABLE ["@ + table_name@
            + "] ENABLE CHANGE_TRACKING WITH (TRACK_COLUMNS_UPDATED = "@ + on_off(
            track_columns_updated,
        ) + ")"@);
        string_of(out.as_slice())
    }

    /// Disables change tracking on a table.
    pub fn disable_table_sql(table_name: &str) -> (r: String)
        ensures
            r@ == "ALTER TABLE ["@ + table_name@ + "] DISABLE CHANGE_TRACKING"@,
    {
        let mut out: Vec<char> = Vec::new();
        push_str_chars(&mut out, "ALTER TABLE [");
        push_str_chars(&mut out, table_name);
        push_str_chars(&mut out, "] DISABLE CHANGE_TRACKING");
        assert(out@ =~= "ALTER TABLE ["@ + table_name@ + "] DISABLE CHANGE_TRACKING"@);
        string_of(out.as_slice())
    }

    /// Disables change tracking on a database.
    pub fn disable_database_sql(database_name: &str) -> (r: String)
        ensures
            r@ == "ALTER DATABASE ["@ + database_name@ + "] SET CHANGE_TRACKING = OFF"@,
    {
        let mut out: Vec<char> = Vec::new();
        push_str_chars(&mut out, "ALTER DATABASE [");
        push_str_chars(&mut out, database_name);
        push_str_chars(&mut out, "] SET CHANGE_TRACKING = OFF");
        assert(out@ =~= "ALTER DATABASE ["@ + database_name@ + "] SET CHANGE_TRACKING = OFF"@);
        string_of(out.as_slice())
    }
}

/// Whether a client's sync version still permits incremental sync.
#[derive(Debug, Clone, Copy, PartialEq, Eq, Structural)]
#[non_exhaustive]
pub enum SyncVersionStatus {
    /// Incremental sync can proceed.
    Valid,
    /// The version is older than the minimum valid version: full re-sync.
    TooOld,
    /// Change tracking is not enabled, or the table does not exist.
    NotEnabled,
}

pub open spec fn check_spec(last_sync_version: i64, min_valid_version: Option<i64>) -> SyncVersionStatus {
    match min_valid_version {
        None => SyncVersionStatus::NotEnabled,
        Some(m) => if last_sync_version >= m {
            SyncVersionStatus::Valid
        } else {
            SyncVersionStatus::TooOld
        },
    }
}

impl SyncVersionStatus {
    /// Classifies `last_sync_version` against the result of
    /// `CHANGE_TRACKING_MIN_VALID_VERSION()` (`None` when it returned NULL).
    pub fn check(last_sync_version: i64, min_valid_version: Option<i64>) -> (r: Self)
        ensures
            r == check_spec(last_sync_version, min_valid_version),
    {
        match min_valid_version {
            None => SyncVersionStatus::NotEnabled,
            Some(m) => if last_sync_version >= m {
                SyncVersionStatus::Valid
            } else {
                SyncVersionStatus::TooOld
            },
        }
    }

    /// Whether incremental sync is possible.
    pub fn can_sync_incrementally(&self) -> (r: bool)
        ensures
            r == (*self == SyncVersionStatus::Valid),
    {
        matches!(self, SyncVersionStatus::Valid)
    }

    /// Whether a full re-sync is required.
    pub fn requires_full_sync(&self) -> (r: bool)
        ensures
            r == (*self == SyncVersionStatus::TooOld),
    {
        matches!(self, SyncVersionStatus::TooOld)
    }
}

/// With change tracking enabled, incremental sync is possible exactly when
/// the last sync version is at least the minimum valid version, a full
/// re-sync is required exactly otherwise, and never both; without it, neither.
pub proof fn law_sync_status(last: i64, min_valid: Option<i64>)
    ensures
        (check_spec(last, min_valid) == SyncVersionStatus::Valid) <==> (min_valid is Some
            && last >= min_valid->0),
        (check_spec(last, min_valid) == SyncVersionStatus::TooOld) <==> (min_valid is Some
            && last < min_valid->0),
        (check_spec(last, min_valid) == SyncVersionStatus::NotEnabled) <==> min_valid is None,
{
}

} // verus!

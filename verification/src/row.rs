//! The values of a ROW or NBCROW token, read column by column.
use vstd::prelude::*;
use crate::column_parser::ColumnMeta;
use crate::column_value::{column_value_spec, parse_column_value};
use crate::error::Error;
use crate::value::{SqlValue, ValueView};
use vstd::arithmetic::power2::{lemma2_to64, pow2};

verus! {

/// A list of values put in front of a row's remaining values, or the
/// error that stopped them.
pub open spec fn prepend(p: Seq<ValueView>, r: Result<Seq<ValueView>, Seq<char>>) -> Result<
    Seq<ValueView>,
    Seq<char>,
> {
    match r {
        Ok(vs) => Ok(p + vs),
        Err(m) => Err(m),
    }
}

/// The values of the columns from `i` on, read in turn from `b`; the
/// first column that cannot be read stops the row with its error.
pub open spec fn row_from(cols: Seq<ColumnMeta>, i: int, b: Seq<u8>) -> Result<Seq<ValueView>, Seq<char>>
    decreases cols.len() - i,
{
    if i < 0 || i >= cols.len() {
        Ok(Seq::empty())
    } else {
        match column_value_spec(cols[i], b) {
            Ok((v, n)) => prepend(seq![v], row_from(cols, i + 1, b.skip(n as int))),
            Err(m) => Err(m),
        }
    }
}

/// Whether the NBCROW bitmap marks column `i` NULL: bit `i % 8` of byte
/// `i / 8`; a column past the bitmap is not marked.
pub open spec fn null_bit(bitmap: Seq<u8>, i: int) -> bool {
    0 <= i / 8 < bitmap.len() && (bitmap[i / 8] >> ((i % 8) as u8)) & 1u8 == 1u8
}

/// The values of an NBCROW from column `i` on: NULL for a marked column,
/// else the column's value read from `b`.
pub open spec fn nbc_row_from(cols: Seq<ColumnMeta>, bitmap: Seq<u8>, i: int, b: Seq<u8>) -> Result<
    Seq<ValueView>,
    Seq<char>,
>
    decreases cols.len() - i,
{
    if i < 0 || i >= cols.len() {
        Ok(Seq::empty())
    } else if null_bit(bitmap, i) {
        prepend(seq![ValueView::Null], nbc_row_from(cols, bitmap, i + 1, b))
    } else {
        match column_value_spec(cols[i], b) {
            Ok((v, n)) => prepend(seq![v], nbc_row_from(cols, bitmap, i + 1, b.skip(n as int))),
            Err(m) => Err(m),
        }
    }
}

/// The views of a list of values.
pub open spec fn views(vs: Seq<SqlValue>) -> Seq<ValueView> {
    Seq::new(vs.len(), |k: int| vs[k]@)
}

/// Whether `r` is the outcome `want` describes.
pub open spec fn row_ok(r: Result<Vec<SqlValue>, Error>, want: Result<Seq<ValueView>, Seq<char>>) -> bool {
    match want {
        Ok(vs) => r matches Ok(v) && views(v@) == vs,
        Err(m) => r matches Err(Error::Protocol(t)) && t@ == m,
    }
}

proof fn lemma_prepend_push(done: Seq<SqlValue>, x: SqlValue, rest: Result<Seq<ValueView>, Seq<char>>)
    ensures
        prepend(views(done), prepend(seq![x@], rest)) == prepend(views(done.push(x)), rest),
{
    assert(views(done.push(x)) =~= views(done) + seq![x@]);
    match rest {
        Ok(vs) => {
            assert(views(done) + (seq![x@] + vs) =~= views(done.push(x)) + vs);
        },
        Err(_) => {},
    }
}

/// Reads the values of a ROW token: every column's value in turn.
pub fn convert_raw_row(data: &[u8], columns: &[ColumnMeta]) -> (r: Result<Vec<SqlValue>, Error>)
    ensures
        row_ok(r, row_from(columns@, 0, data@)),
{
    let mut values: Vec<SqlValue> = Vec::new();
    let mut buf: &[u8] = data;
    let mut i: usize = 0;
    assert(views(values@) =~= Seq::<ValueView>::empty());
    assert(prepend(Seq::empty(), row_from(columns@, 0, data@)) =~= row_from(columns@, 0, data@)) by {
        match row_from(columns@, 0, data@) {
            Ok(vs) => assert(Seq::<ValueView>::empty() + vs =~= vs),
            Err(_) => {},
        }
    }
    while i < columns.len()
        invariant
            i <= columns@.len(),
            row_from(columns@, 0, data@) == prepend(views(values@), row_from(columns@, i as int, buf@)),
        decreases columns@.len() - i,
    {
        let ghost before = buf@;
        let ghost done = values@;
        let v = parse_column_value(&mut buf, &columns[i]);
        match v {
            Ok(x) => {
                proof {
                    lemma_prepend_push(done, x, row_from(columns@, i + 1, buf@));
                }
                values.push(x);
            },
            Err(e) => {
                return Err(e);
            },
        }
        i = i + 1;
    }
    assert(views(values@) + Seq::<ValueView>::empty() =~= views(values@));
    Ok(values)
}

/// Reads the values of an NBCROW token: NULL for the columns the bitmap
/// marks, the column's value for the others.
pub fn convert_nbc_row(null_bitmap: &[u8], data: &[u8], columns: &[ColumnMeta]) -> (r: Result<
    Vec<SqlValue>,
    Error,
>)
    ensures
        row_ok(r, nbc_row_from(columns@, null_bitmap@, 0, data@)),
{
    let mut values: Vec<SqlValue> = Vec::new();
    let mut buf: &[u8] = data;
    let mut i: usize = 0;
    assert(views(values@) =~= Seq::<ValueView>::empty());
    assert(prepend(Seq::empty(), nbc_row_from(columns@, null_bitmap@, 0, data@)) =~= nbc_row_from(
        columns@,
        null_bitmap@,
        0,
        data@,
    )) by {
        match nbc_row_from(columns@, null_bitmap@, 0, data@) {
            Ok(vs) => assert(Seq::<ValueView>::empty() + vs =~= vs),
            Err(_) => {},
        }
    }
    while i < columns.len()
        invariant
            i <= columns@.len(),
            nbc_row_from(columns@, null_bitmap@, 0, data@) == prepend(
                views(values@),
                nbc_row_from(columns@, null_bitmap@, i as int, buf@),
            ),
        decreases columns@.len() - i,
    {
        let ghost done = values@;
        let byte = i / 8;
        let is_null = byte < null_bitmap.len() && (null_bitmap[byte] >> ((i % 8) as u8)) & 1u8 == 1u8;
        assert(is_null == null_bit(null_bitmap@, i as int));
        if is_null {
            proof {
                lemma_prepend_push(done, SqlValue::Null, nbc_row_from(columns@, null_bitmap@, i + 1, buf@));
            }
            values.push(SqlValue::Null);
        } else {
            let v = parse_column_value(&mut buf, &columns[i]);
            match v {
                Ok(x) => {
                    proof {
                        lemma_prepend_push(done, x, nbc_row_from(columns@, null_bitmap@, i + 1, buf@));
                    }
                    values.push(x);
                },
                Err(e) => {
                    return Err(e);
                },
            }
        }
        i = i + 1;
    }
    assert(views(values@) + Seq::<ValueView>::empty() =~= views(values@));
    Ok(values)
}

/// An NBCROW whose bitmap marks none of the columns reads as a ROW with the
/// same bytes: the bitmap only leaves out values.
pub proof fn law_unmarked_nbc_row_is_row(cols: Seq<ColumnMeta>, bitmap: Seq<u8>, b: Seq<u8>, i: int)
    requires
        0 <= i,
        forall|k: int| i <= k < cols.len() ==> !null_bit(bitmap, k),
    ensures
        nbc_row_from(cols, bitmap, i, b) == row_from(cols, i, b),
    decreases cols.len() - i,
{
    if i < cols.len() {
        match column_value_spec(cols[i], b) {
            Ok((v, n)) => {
                law_unmarked_nbc_row_is_row(cols, bitmap, b.skip(n as int), i + 1);
            },
            Err(_) => {},
        }
    }
}


proof fn lemma_bit_of_byte(x: u8, k: u8)
    requires
        k < 8,
    ensures
        ((x >> k) & 1u8 == 1u8) == ((x as int / pow2(k as nat) as int) % 2 == 1),
{
    lemma2_to64();
    if k == 0 {
        assert(((x >> 0u8) & 1u8 == 1u8) == ((x / 1u8) % 2u8 == 1u8)) by (bit_vector);
    } else if k == 1 {
        assert(((x >> 1u8) & 1u8 == 1u8) == ((x / 2u8) % 2u8 == 1u8)) by (bit_vector);
    } else if k == 2 {
        assert(((x >> 2u8) & 1u8 == 1u8) == ((x / 4u8) % 2u8 == 1u8)) by (bit_vector);
    } else if k == 3 {
        assert(((x >> 3u8) & 1u8 == 1u8) == ((x / 8u8) % 2u8 == 1u8)) by (bit_vector);
    } else if k == 4 {
        assert(((x >> 4u8) & 1u8 == 1u8) == ((x / 16u8) % 2u8 == 1u8)) by (bit_vector);
    } else if k == 5 {
        assert(((x >> 5u8) & 1u8 == 1u8) == ((x / 32u8) % 2u8 == 1u8)) by (bit_vector);
    } else if k == 6 {
        assert(((x >> 6u8) & 1u8 == 1u8) == ((x / 64u8) % 2u8 == 1u8)) by (bit_vector);
    } else if k == 7 {
        assert(((x >> 7u8) & 1u8 == 1u8) == ((x / 128u8) % 2u8 == 1u8)) by (bit_vector);
    }
}

/// Column `i` of an NBCROW is marked NULL exactly when bit `i % 8` (the
/// bit of weight 2^(i % 8)) of byte `i / 8` of the bitmap is set; a column
/// past the bitmap is never marked.
pub proof fn law_null_bit_is_the_column_bit(bitmap: Seq<u8>, i: int)
    requires
        0 <= i,
    ensures
        null_bit(bitmap, i) <==> (i / 8 < bitmap.len() && (bitmap[i / 8] as int / pow2((i % 8) as nat) as int)
            % 2 == 1),
{
    if i / 8 < bitmap.len() {
        lemma_bit_of_byte(bitmap[i / 8], (i % 8) as u8);
    }
}

/// An NBCROW whose bitmap marks every column from `i` on gives NULL for
/// each of them, whatever its data bytes hold.
pub proof fn law_marked_columns_are_null(cols: Seq<ColumnMeta>, bitmap: Seq<u8>, b: Seq<u8>, i: int)
    requires
        0 <= i <= cols.len(),
        forall|k: int| i <= k < cols.len() ==> null_bit(bitmap, k),
    ensures
        nbc_row_from(cols, bitmap, i, b) == Ok::<Seq<ValueView>, Seq<char>>(
            Seq::new((cols.len() - i) as nat, |k: int| ValueView::Null),
        ),
    decreases cols.len() - i,
{
    if i < cols.len() {
        law_marked_columns_are_null(cols, bitmap, b, i + 1);
        assert(seq![ValueView::Null] + Seq::new((cols.len() - i - 1) as nat, |k: int| ValueView::Null)
            =~= Seq::new((cols.len() - i) as nat, |k: int| ValueView::Null));
    } else {
        assert(Seq::new(0, |k: int| ValueView::Null) =~= Seq::<ValueView>::empty());
    }
}

} // verus!

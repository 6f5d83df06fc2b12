//! Reading a COLMETADATA token by the TDS rules for each type's TYPE_INFO,
//! and the law that the bulk loader's token reads back to the columns it
//! was made from.
use vstd::prelude::*;
use crate::bulk::{collation_bytes, decimal_len_spec, ColumnView};
use crate::bulk_insert::{
    colmetadata_spec, column_entries, column_entry, effective_type_id, is_var_type, new_bulk_view,
    or_u32, or_u8, type_info_bytes,
};
use crate::wire::{le2, le4, lemma_le2_roundtrip, lemma_utf16_bytes_len, u16_of, utf16_bytes, utf16_of};

verus! {

/// One column of a COLMETADATA token as read from the wire.
pub ghost struct WireColumn {
    pub flags: u16,
    pub type_id: u8,
    pub max_length: Option<u32>,
    pub precision: Option<u8>,
    pub scale: Option<u8>,
    pub collation: Option<Seq<u8>>,
    pub name: Seq<u16>,
}

/// Types whose TYPE_INFO is a one-byte length: INTN, BITN, FLTN, MONEYN,
/// DATETIMEN and GUID.
pub open spec fn is_length_byte_type(t: u8) -> bool {
    t == 0x26 || t == 0x68 || t == 0x6D || t == 0x6E || t == 0x6F || t == 0x24
}

/// Fixed-length types and DATE, which carry no TYPE_INFO.
pub open spec fn is_bare_type(t: u8) -> bool {
    t == 0x30 || t == 0x32 || t == 0x34 || t == 0x38 || t == 0x3A || t == 0x3B || t == 0x3C || t
        == 0x3D || t == 0x3E || t == 0x7A || t == 0x7F || t == 0x28
}

/// The length of the TYPE_INFO of type `t`, for the types read here.
pub open spec fn type_info_len(t: u8) -> Option<nat> {
    if is_bare_type(t) {
        Some(0)
    } else if is_length_byte_type(t) || (0x29 <= t <= 0x2B) {
        Some(1)
    } else if t == 0x6A || t == 0x6C {
        Some(3)
    } else if t == 0xA7 || t == 0xAF || t == 0xE7 || t == 0xEF {
        Some(7)
    } else if t == 0xA5 || t == 0xAD {
        Some(2)
    } else {
        None
    }
}

/// The `k` UTF-16 code units at the start of `b`.
pub open spec fn units(b: Seq<u8>, k: nat) -> Seq<u16> {
    Seq::new(k, |j: int| u16_of(b.skip(2 * j)))
}

/// The column whose entry starts `b`, given that its TYPE_INFO has `k`
/// bytes and the name `n` units.
pub open spec fn wire_column(b: Seq<u8>, k: nat, n: nat) -> WireColumn {
    let t = b[6];
    let info = b.skip(7);
    WireColumn {
        flags: u16_of(b.skip(4)),
        type_id: t,
        max_length: if is_length_byte_type(t) || t == 0x6A || t == 0x6C {
            Some(info[0] as u32)
        } else if k == 7 || k == 2 {
            Some(u16_of(info) as u32)
        } else {
            None
        },
        precision: if t == 0x6A || t == 0x6C {
            Some(info[1])
        } else {
            None
        },
        scale: if t == 0x6A || t == 0x6C {
            Some(info[2])
        } else if 0x29 <= t <= 0x2B {
            Some(info[0])
        } else {
            None
        },
        collation: if k == 7 {
            Some(info.subrange(2, 7))
        } else {
            None
        },
        name: units(b.skip(8 + k as int), n),
    }
}

/// One column entry: user type (4 bytes), flags (2), type id, TYPE_INFO,
/// and the name as a one-byte count of UTF-16 units and the units.  Gives
/// the column and the bytes it took.
pub open spec fn read_entry(b: Seq<u8>) -> Option<(WireColumn, nat)> {
    if b.len() < 7 {
        None
    } else {
        match type_info_len(b[6]) {
            None => None,
            Some(k) => if b.len() < 8 + k {
                None
            } else {
                let n = b[7 + k as int] as nat;
                if b.len() < 8 + k + 2 * n {
                    None
                } else {
                    Some((wire_column(b, k, n), 8 + k + 2 * n))
                }
            },
        }
    }
}

/// `count` column entries read one after another.
pub open spec fn read_entries(b: Seq<u8>, count: nat) -> Option<Seq<WireColumn>>
    decreases count,
{
    if count == 0 {
        Some(Seq::empty())
    } else {
        match read_entry(b) {
            None => None,
            Some((w, n)) => match read_entries(b.skip(n as int), (count - 1) as nat) {
                None => None,
                Some(ws) => Some(seq![w] + ws),
            },
        }
    }
}

/// A COLMETADATA token: 0x81, the column count (2 bytes), the entries.
pub open spec fn read_colmetadata(b: Seq<u8>) -> Option<Seq<WireColumn>> {
    if b.len() < 3 || b[0] != 0x81 {
        None
    } else {
        read_entries(b.skip(3), u16_of(b.skip(1)) as nat)
    }
}

/// Whether a column's entry is one the reader above takes back whole: a
/// name of at most 255 UTF-16 units, and either the fixed-length variant
/// or a TYPE_INFO of a kind read above whose length fits its field (XML
/// and the fixed-length character and binary types are not among them).
pub open spec fn colmetadata_readable(c: ColumnView) -> bool {
    let t = c.type_id;
    &&& utf16_of(c.name).len() <= 255
    &&& (effective_type_id(c) != t || (t == 0x26 || t == 0x68 || t == 0x6D || t == 0x6E || t == 0x6F)
        && or_u32(c.max_length, 4) <= 255 || t == 0x24 || t == 0x28 || (0x29 <= t <= 0x2B) || t
        == 0x6A || t == 0x6C || is_var_type(t) && or_u32(c.max_length, 8000) <= 0xFFFF)
}

/// What a column's entry declares: flags 0x0009 for a nullable column and
/// 0x0008 otherwise; the type id it is declared with; for a nullable type
/// the column's length (4 when unset, 8000 for variable-length data,
/// 16 for GUID), the precision and scale of a decimal (18 and 0 when unset)
/// and its byte length, the scale of a time type (7 when unset), and the
/// collation of a character type (Latin1_General_CI_AS when unset); and
/// the name's UTF-16 units.
pub open spec fn declared_wire(c: ColumnView) -> WireColumn {
    let t = c.type_id;
    let eff = effective_type_id(c);
    let own = eff == t;
    let p = or_u8(c.precision, 18);
    WireColumn {
        flags: if c.nullable {
            0x0009u16
        } else {
            0x0008u16
        },
        type_id: eff,
        max_length: if !own {
            None
        } else if t == 0x26 || t == 0x68 || t == 0x6D || t == 0x6E || t == 0x6F {
            Some(or_u32(c.max_length, 4))
        } else if t == 0x24 {
            Some(16)
        } else if is_var_type(t) {
            Some(or_u32(c.max_length, 8000))
        } else if t == 0x6A || t == 0x6C {
            Some(decimal_len_spec(p) as u32)
        } else {
            None
        },
        precision: if own && (t == 0x6A || t == 0x6C) {
            Some(p)
        } else {
            None
        },
        scale: if own && (t == 0x6A || t == 0x6C) {
            Some(or_u8(c.scale, 0))
        } else if own && 0x29 <= t <= 0x2B {
            Some(or_u8(c.scale, 7))
        } else {
            None
        },
        collation: if own && (t == 0xE7 || t == 0xA7) {
            Some(
                match c.collation {
                    Some(co) => collation_bytes(co),
                    None => seq![0x09u8, 0x04u8, 0xD0u8, 0x00u8, 0x34u8],
                },
            )
        } else {
            None
        },
        name: utf16_of(c.name),
    }
}

proof fn lemma_entries_front(cs: Seq<ColumnView>)
    requires
        cs.len() > 0,
    ensures
        column_entries(cs) == column_entry(cs[0]) + column_entries(cs.drop_first()),
    decreases cs.len(),
{
    if cs.len() == 1 {
        assert(cs.drop_last() =~= Seq::<ColumnView>::empty());
        assert(cs.drop_first() =~= Seq::<ColumnView>::empty());
        assert(column_entries(Seq::<ColumnView>::empty()) == Seq::<u8>::empty());
        assert(column_entry(cs[0]) + Seq::<u8>::empty() =~= column_entry(cs[0]));
    } else {
        lemma_entries_front(cs.drop_last());
        assert(cs.drop_last().drop_first() =~= cs.drop_first().drop_last());
        assert(cs.drop_first().last() == cs.last());
        assert(cs.drop_last()[0] == cs[0]);
        assert(column_entries(cs) =~= column_entry(cs[0]) + column_entries(cs.drop_first()));
    }
}

proof fn lemma_utf16_bytes_at(u: Seq<u16>, k: int)
    requires
        0 <= k < u.len(),
    ensures
        utf16_bytes(u).len() == 2 * u.len(),
        utf16_bytes(u)[2 * k] == le2(u[k])[0],
        utf16_bytes(u)[2 * k + 1] == le2(u[k])[1],
    decreases u.len(),
{
    lemma_utf16_bytes_len(u);
    lemma_utf16_bytes_len(u.drop_last());
    if k < u.len() - 1 {
        lemma_utf16_bytes_at(u.drop_last(), k);
    }
}

proof fn lemma_units_read_back(u: Seq<u16>, rest: Seq<u8>)
    ensures
        units(utf16_bytes(u) + rest, u.len()) == u,
{
    lemma_utf16_bytes_len(u);
    let b = utf16_bytes(u) + rest;
    assert forall|j: int| 0 <= j < u.len() implies #[trigger] u16_of(b.skip(2 * j)) == u[j] by {
        lemma_utf16_bytes_at(u, j);
        lemma_le2_roundtrip(u[j]);
    }
    assert(units(b, u.len()) =~= u);
}

proof fn lemma_info_len(c: ColumnView)
    requires
        colmetadata_readable(c),
    ensures
        type_info_len(effective_type_id(c)) == Some(
            (if effective_type_id(c) != c.type_id {
                Seq::<u8>::empty()
            } else {
                type_info_bytes(c)
            }).len(),
        ),
{
    let t = c.type_id;
    if is_var_type(t) && effective_type_id(c) == t {
        assert(le2(or_u32(c.max_length, 8000) as u16).len() == 2);
    }
}

proof fn lemma_entry_reads(c: ColumnView, rest: Seq<u8>)
    requires
        colmetadata_readable(c),
    ensures
        read_entry(column_entry(c) + rest) == Some((declared_wire(c), column_entry(c).len())),
{
    let t = c.type_id;
    let eff = effective_type_id(c);
    let info = if eff != t {
        Seq::<u8>::empty()
    } else {
        type_info_bytes(c)
    };
    let flags: u16 = if c.nullable {
        0x0009u16
    } else {
        0x0008u16
    };
    let name = utf16_of(c.name);
    lemma_utf16_bytes_len(name);
    lemma_info_len(c);
    let k = info.len();
    let head = le4(0) + le2(flags) + seq![eff] + info + seq![name.len() as u8];
    assert(column_entry(c) =~= head + utf16_bytes(name));
    let b = column_entry(c) + rest;
    assert(b[6] == eff);
    assert(b[7 + k as int] == name.len() as u8);
    assert(b.skip(8 + k as int) =~= utf16_bytes(name) + rest);
    lemma_units_read_back(name, rest);
    lemma_le2_roundtrip(flags);
    assert(b.skip(4)[0] == le2(flags)[0] && b.skip(4)[1] == le2(flags)[1]);
    assert(u16_of(b.skip(4)) == flags);
    assert forall|j: int| 0 <= j < k implies #[trigger] b.skip(7)[j] == info[j] by {
        assert(b.skip(7)[j] == b[7 + j]);
    }
    if eff == t && is_var_type(t) {
        let len = or_u32(c.max_length, 8000);
        lemma_le2_roundtrip(len as u16);
        assert(b.skip(7)[0] == le2(len as u16)[0] && b.skip(7)[1] == le2(len as u16)[1]);
        assert(u16_of(b.skip(7)) == len as u16);
        if t == 0xE7 || t == 0xA7 {
            assert(b.skip(7).subrange(2, 7) =~= info.subrange(2, 7));
            assert(info.subrange(2, 7) =~= (match c.collation {
                Some(co) => collation_bytes(co),
                None => seq![0x09u8, 0x04u8, 0xD0u8, 0x00u8, 0x34u8],
            }));
        }
    }
    assert(wire_column(b, k, name.len()) == declared_wire(c));
}

/// The columns an entry list declares.
pub open spec fn declared_columns(cs: Seq<ColumnView>) -> Seq<WireColumn> {
    Seq::new(cs.len(), |i: int| declared_wire(cs[i]))
}

proof fn lemma_entries_read(cs: Seq<ColumnView>, rest: Seq<u8>)
    requires
        forall|i: int| 0 <= i < cs.len() ==> colmetadata_readable(#[trigger] cs[i]),
    ensures
        read_entries(column_entries(cs) + rest, cs.len()) == Some(declared_columns(cs)),
    decreases cs.len(),
{
    if cs.len() == 0 {
        assert(declared_columns(cs) =~= Seq::<WireColumn>::empty());
    } else {
        lemma_entries_front(cs);
        let tail = cs.drop_first();
        let e = column_entry(cs[0]);
        let b = column_entries(cs) + rest;
        assert(b =~= e + (column_entries(tail) + rest));
        lemma_entry_reads(cs[0], column_entries(tail) + rest);
        assert(b.skip(e.len() as int) =~= column_entries(tail) + rest);
        assert forall|i: int| 0 <= i < tail.len() implies colmetadata_readable(#[trigger] tail[i]) by {
            assert(tail[i] == cs[i + 1]);
        }
        lemma_entries_read(tail, rest);
        assert(seq![declared_wire(cs[0])] + declared_columns(tail) =~= declared_columns(cs));
    }
}

/// The COLMETADATA token the bulk loader writes reads back, by the TDS
/// rules for each type's TYPE_INFO, to one column per declared column, in
/// order: its name, the type id it is declared with, its flags, and the
/// length, precision, scale and collation its type carries.
pub proof fn law_colmetadata_reads_back(cs: Seq<ColumnView>)
    requires
        cs.len() <= 0xFFFF,
        forall|i: int| 0 <= i < cs.len() ==> colmetadata_readable(#[trigger] cs[i]),
    ensures
        read_colmetadata(colmetadata_spec(cs)) == Some(declared_columns(cs)),
{
    let b = colmetadata_spec(cs);
    let n = cs.len() as u16;
    lemma_le2_roundtrip(n);
    assert(b.skip(1)[0] == le2(n)[0] && b.skip(1)[1] == le2(n)[1]);
    assert(u16_of(b.skip(1)) == n);
    assert(b.skip(3) =~= column_entries(cs) + Seq::<u8>::empty());
    lemma_entries_read(cs, Seq::empty());
}

/// The buffer of a bulk insert made from column definitions alone starts
/// as a COLMETADATA token that reads back to those columns.
pub proof fn law_new_bulk_insert_declares_its_columns(cs: Seq<ColumnView>, batch_size: usize)
    requires
        cs.len() <= 0xFFFF,
        forall|i: int| 0 <= i < cs.len() ==> colmetadata_readable(#[trigger] cs[i]),
    ensures
        read_colmetadata(new_bulk_view(cs, batch_size, None, None).buffer) == Some(declared_columns(cs)),
{
    law_colmetadata_reads_back(cs);
}

} // verus!

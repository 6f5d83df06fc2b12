//! SQL values as the bulk loader writes them and the column parser reads them.
use vstd::prelude::*;
use chrono::{NaiveDate, NaiveDateTime, NaiveTime};
use rust_decimal::Decimal;
use uuid::Uuid;
use crate::calendar::{date_days, datetime_date, datetime_time, time_nano, time_secs};
use crate::decimal::{decimal_mantissa, decimal_negative, decimal_scale};

verus! {

/// The type `uuid::Uuid`, opaque; its sixteen bytes are named by
/// `uuid_bytes`.
#[verifier::external_type_specification]
#[verifier::external_body]
pub struct ExUuid(uuid::Uuid);

/// The sixteen bytes a `Uuid` holds, in RFC 4122 (big-endian) order.
pub uninterp spec fn uuid_bytes(u: Uuid) -> Seq<u8>;

/// `<Uuid as Clone>::clone`: `Uuid` is `Copy`, so a clone is the same value.
pub assume_specification[ <uuid::Uuid as Clone>::clone ](u: &uuid::Uuid) -> (r: uuid::Uuid)
    ensures
        r == *u,
;

/// `Uuid::from_bytes`: the UUID holding these sixteen bytes.
#[verifier::external_body]
pub(crate) fn uuid_from_bytes(b: [u8; 16]) -> (r: Uuid)
    ensures
        uuid_bytes(r) == b@,
{
    Uuid::from_bytes(b)
}

/// `Uuid::as_bytes`: the sixteen bytes the UUID holds.
#[verifier::external_body]
pub(crate) fn uuid_as_bytes(u: &Uuid) -> (r: [u8; 16])
    ensures
        r@ == uuid_bytes(*u),
{
    *u.as_bytes()
}

/// A DATETIMEOFFSET: the instant as a UTC date-time and the offset from
/// UTC, in minutes, that it carries.
#[derive(Debug, Clone, Copy, PartialEq)]
pub struct DateTimeOffset {
    pub utc: NaiveDateTime,
    pub offset_minutes: i16,
}

/// A SQL Server value.
///
/// Integers, strings, binary data and XML are carried as they are,
/// floating-point numbers as their IEEE 754 bits; dates and times as
/// `chrono` values, exact numbers as `rust_decimal` values.
#[derive(Debug, Clone, PartialEq)]
pub enum SqlValue {
    /// SQL NULL.
    Null,
    /// BIT.
    Bool(bool),
    /// TINYINT.
    TinyInt(u8),
    /// SMALLINT.
    SmallInt(i16),
    /// INT.
    Int(i32),
    /// BIGINT.
    BigInt(i64),
    /// REAL, carried as its IEEE 754 single-precision bits.
    Float(u32),
    /// FLOAT, carried as its IEEE 754 double-precision bits.
    Double(u64),
    /// Character data (CHAR, VARCHAR, NCHAR, NVARCHAR and their MAX forms).
    String(String),
    /// Binary data (BINARY, VARBINARY and VARBINARY(MAX)).
    Binary(Vec<u8>),
    /// XML text.
    Xml(String),
    /// DECIMAL, NUMERIC, MONEY and SMALLMONEY.
    Decimal(Decimal),
    /// DATE.
    Date(NaiveDate),
    /// TIME.
    Time(NaiveTime),
    /// DATETIME, SMALLDATETIME and DATETIME2.
    DateTime(NaiveDateTime),
    /// A date-time that is always written as SMALLDATETIME.
    SmallDateTime(NaiveDateTime),
    /// A decimal that is always written as MONEY.
    Money(Decimal),
    /// A decimal that is always written as SMALLMONEY.
    SmallMoney(Decimal),
    /// DATETIMEOFFSET.
    DateTimeOffset(DateTimeOffset),
    /// UNIQUEIDENTIFIER.
    Uuid(Uuid),
    /// A table-valued parameter (carried without its rows); bulk copy
    /// refuses it.
    Tvp,
}

/// The abstract content of a [`SqlValue`].
pub ghost enum ValueView {
    Null,
    Bool(bool),
    TinyInt(u8),
    SmallInt(i16),
    Int(i32),
    BigInt(i64),
    Float(u32),
    Double(u64),
    String(Seq<char>),
    Binary(Seq<u8>),
    Xml(Seq<char>),
    /// Mantissa, scale and sign flag.
    Decimal(int, int, bool),
    /// Day number, 0001-01-01 being day 1.
    Date(int),
    /// Seconds since midnight and nanoseconds.
    Time(int, int),
    /// Day number, seconds since midnight and nanoseconds.
    DateTime(int, int, int),
    /// As `DateTime`.
    SmallDateTime(int, int, int),
    /// As `Decimal`.
    Money(int, int, bool),
    /// As `Decimal`.
    SmallMoney(int, int, bool),
    /// Day number, seconds and nanoseconds of the UTC instant, and the
    /// offset in minutes.
    DateTimeOffset(int, int, int, i16),
    Uuid(Seq<u8>),
    Tvp,
}

impl View for SqlValue {
    type V = ValueView;

    open spec fn view(&self) -> ValueView {
        match self {
            SqlValue::Null => ValueView::Null,
            SqlValue::Bool(b) => ValueView::Bool(*b),
            SqlValue::TinyInt(x) => ValueView::TinyInt(*x),
            SqlValue::SmallInt(x) => ValueView::SmallInt(*x),
            SqlValue::Int(x) => ValueView::Int(*x),
            SqlValue::BigInt(x) => ValueView::BigInt(*x),
            SqlValue::Float(x) => ValueView::Float(*x),
            SqlValue::Double(x) => ValueView::Double(*x),
            SqlValue::String(s) => ValueView::String(s@),
            SqlValue::Binary(b) => ValueView::Binary(b@),
            SqlValue::Xml(x) => ValueView::Xml(x@),
            SqlValue::Decimal(d) => ValueView::Decimal(
                decimal_mantissa(*d),
                decimal_scale(*d),
                decimal_negative(*d),
            ),
            SqlValue::Date(d) => ValueView::Date(date_days(*d)),
            SqlValue::Time(t) => ValueView::Time(time_secs(*t), time_nano(*t)),
            SqlValue::DateTime(dt) => ValueView::DateTime(
                date_days(datetime_date(*dt)),
                time_secs(datetime_time(*dt)),
                time_nano(datetime_time(*dt)),
            ),
            SqlValue::SmallDateTime(dt) => ValueView::SmallDateTime(
                date_days(datetime_date(*dt)),
                time_secs(datetime_time(*dt)),
                time_nano(datetime_time(*dt)),
            ),
            SqlValue::Money(d) => ValueView::Money(
                decimal_mantissa(*d),
                decimal_scale(*d),
                decimal_negative(*d),
            ),
            SqlValue::SmallMoney(d) => ValueView::SmallMoney(
                decimal_mantissa(*d),
                decimal_scale(*d),
                decimal_negative(*d),
            ),
            SqlValue::DateTimeOffset(o) => ValueView::DateTimeOffset(
                date_days(datetime_date(o.utc)),
                time_secs(datetime_time(o.utc)),
                time_nano(datetime_time(o.utc)),
                o.offset_minutes,
            ),
            SqlValue::Uuid(u) => ValueView::Uuid(uuid_bytes(*u)),
            SqlValue::Tvp => ValueView::Tvp,
        }
    }
}

} // verus!

//! Verified core of an SQL Server (TDS) client driver.
pub mod text;
pub mod change_tracking;
pub mod error;
pub mod validation;
pub mod bulk;
pub mod wire;
pub mod calendar;
pub mod decimal;
pub mod value;
pub mod bulk_insert;
pub mod config;
pub mod browser;
pub mod column_parser;
pub mod column_dates;
pub mod column_money;
pub mod column_variant;
pub mod column_time;
pub mod column_decimal;
pub mod column_text;
pub mod column_value;
pub mod column_decrypt;
pub mod blob;
pub mod session;
pub mod negotiation;
pub mod row;
pub mod response;
pub mod colmetadata;

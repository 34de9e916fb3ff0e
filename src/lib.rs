//! Reader for a legacy flat-file tabular database format: binary headers,
//! BCD-encoded numbers, dates and text fields, a table registry, and the
//! per-table and per-database caches that sit on top of them.

pub mod bytes;
pub mod codec;
pub mod column;
pub mod database;
pub mod date;
pub mod enums;
pub mod errors;
pub mod filelist;
pub mod fold;
pub mod header;
pub mod index;
pub mod segment;
pub mod table;
pub mod tagfile;
pub mod text;

pub use bytes::{read_i16_le, read_u16_le};
pub use column::Column;
pub use codec::{
    date_from_bytes, decimal_text_from_bcd_bytes, int_from_bcd_bytes, int_from_packed_bcd,
    int_from_unpacked_bcd,
};
pub use database::DataFlexDB;
pub use date::Date;
pub use enums::{
    CompressionType, DataType, IndexCollation, IndexType, LockType, TransactionType, Version,
};
pub use text::string_from_bytes;
pub use errors::FerricError;
pub use filelist::{FileList, FileListEntry, TableKey};
pub use header::Header;
pub use index::Index;
pub use segment::FieldSegment;
pub use table::{ColumnDef, DataFlexTable, Row, Schema, Value, ValueView};
pub use tagfile::TagFile;

use vstd::prelude::*;

use crate::bytes::{read_u16_le, u16_le};
use crate::column::{column_fields_match, column_table_matches, names_view, Column};
use crate::enums::{compression_of, CompressionType, Version};
use crate::errors::FerricError;
use crate::index::{chunk, index_table_matches, Index};
use crate::tagfile::{generated_names, TagFile};
use crate::text::{ascii_text, string_from_bytes};

verus! {

/// The size of a 2.3b header.
pub const LEGACY_HEADER_SIZE: usize = 512;

/// The size of a 3.0 header.
pub const CURRENT_HEADER_SIZE: usize = 3072;

/// The decoded header of a table file.
#[derive(Clone, Debug)]
pub struct Header {
    /// The number of columns in the table.
    pub field_count: u64,
    /// The number of records in the table.
    pub record_count: u64,
    /// The number of bytes in one record.
    pub record_length: u64,
    /// The most records the table may hold.
    pub max_record_count: u64,
    /// The most records the table has ever held.
    pub highest_record_count: u64,
    /// Whether space of deleted records is nulled rather than removed.
    pub reuse_deleted_space: bool,
    /// Whether the table is set up for several users at once.
    pub multiuser_reread_active: bool,
    /// The table's index definitions.
    pub indexes: Vec<Index>,
    /// The name of the table's file.
    pub file_root_name: String,
    /// The table's column definitions.
    pub columns: Vec<Column>,
    /// The number of records in one block.
    pub records_per_block: u64,
    /// The number of filler bytes at the end of each block.
    pub fill_bytes_per_block: u64,
    /// The header layout.
    pub version: Version,
    /// Where the table's file lies.
    pub filepath: String,
    /// 3.0 only: the compression applied to records.
    pub compression_type: Option<CompressionType>,
    /// 3.0 only: the first file-locking flag.
    pub file_locking1: Option<bool>,
    /// 3.0 only: the second file-locking flag.
    pub file_locking2: Option<bool>,
    /// 3.0 only: the offset of the first available record.
    pub first_available_record: Option<u64>,
    /// 3.0 only: whether header integrity checks are enabled.
    pub header_integrity_enabled: Option<bool>,
    /// 3.0 only: whether new records reuse the space of deleted ones.
    pub reuse_deleted_records: Option<bool>,
}

pub open spec fn min_int(a: int, b: int) -> int {
    if a < b { a } else { b }
}

pub open spec fn abs_diff(a: int, b: int) -> int {
    if a < b { b - a } else { a - b }
}

/// The number of filler bytes per 512-byte block for a record length.
pub open spec fn fill_bytes_for(record_length: int) -> int {
    512int % min_int(512, record_length)
}

/// The length of column `i` in a 3.0 header, derived from the offsets: the
/// whole record for a single column, else the distance to the next column's
/// offset, and for the last column the distance to the previous one.
pub open spec fn reconciled_length(offsets: Seq<u64>, i: int, record_length: int) -> int {
    if offsets.len() == 1 {
        record_length
    } else if i == offsets.len() - 1 {
        abs_diff(offsets[i] as int, offsets[i - 1] as int)
    } else {
        abs_diff(offsets[i + 1] as int, offsets[i] as int)
    }
}

pub open spec fn column_offsets(v: Seq<Column>) -> Seq<u64> {
    v.map_values(|c: Column| c.offset)
}

/// `v` is what a 3.0 column table describes, with lengths reconciled.
pub open spec fn sized_columns_match(
    v: Seq<Column>,
    s: Seq<u8>,
    names: Seq<Seq<char>>,
    record_length: int,
) -> bool {
    &&& v.len() == min_int(s.len() as int / 8, names.len() as int)
    &&& forall|i: int|
        0 <= i < v.len() ==> #[trigger] column_fields_match(v[i], chunk(s, 8, i), names[i])
    &&& forall|i: int|
        0 <= i < v.len() ==> #[trigger] v[i].length == reconciled_length(
            column_offsets(v),
            i,
            record_length,
        )
}

/// `h` is what the 512-byte header `d` describes, with known column names `names`.
pub open spec fn legacy_header_matches(h: Header, d: Seq<u8>, names: Seq<Seq<char>>) -> bool {
    let rl = u16_le(d, 0x4E);
    &&& h.version == Version::V23B
    &&& h.field_count == d[0x59]
    &&& h.record_count == u16_le(d, 0x08)
    &&& h.record_length == rl
    &&& h.max_record_count == u16_le(d, 0x0C)
    &&& h.highest_record_count == u16_le(d, 0)
    &&& h.reuse_deleted_space == (d[0x58] == 0)
    &&& h.multiuser_reread_active == (d[0x5C] != 0)
    &&& index_table_matches(h.indexes@, d.subrange(0x64, 0xB4))
    &&& h.file_root_name@ == ascii_text(d.subrange(0xB4, 0xBD))
    &&& column_table_matches(
        h.columns@,
        d.subrange(0xC4, 0x1FD),
        generated_names(d[0x59] as int, names),
    )
    &&& h.records_per_block == (if 512int / rl > 1 { 512int / rl } else { 1 })
    &&& h.fill_bytes_per_block == fill_bytes_for(rl)
    &&& h.compression_type is None
    &&& h.file_locking1 is None
    &&& h.file_locking2 is None
    &&& h.first_available_record is None
    &&& h.header_integrity_enabled is None
    &&& h.reuse_deleted_records is None
}

/// `h` is what the 3072-byte header `d` describes, with known column names `names`.
pub open spec fn current_header_matches(h: Header, d: Seq<u8>, names: Seq<Seq<char>>) -> bool {
    let rl = u16_le(d, 0x9A);
    &&& h.version == Version::V30
    &&& h.field_count == d[0xA5]
    &&& h.record_count == u16_le(d, 0x08)
    &&& h.record_length == rl
    &&& h.max_record_count == u16_le(d, 0x0C)
    &&& h.highest_record_count == u16_le(d, 0)
    &&& h.reuse_deleted_space == (d[0x4A] == 0)
    &&& !h.multiuser_reread_active
    &&& index_table_matches(h.indexes@, d.subrange(0xB0, 0x1D0))
    &&& h.file_root_name@ == ascii_text(d.subrange(0x2D0, 0x2E0))
    &&& sized_columns_match(
        h.columns@,
        d.subrange(0x2E0, 0xAD8),
        generated_names(d[0xA5] as int, names),
        rl,
    )
    &&& h.records_per_block == u16_le(d, 0x98)
    &&& h.fill_bytes_per_block == fill_bytes_for(rl)
    &&& h.compression_type == compression_of(d[0x1F])
    &&& h.file_locking1 == Some(d[0x41] != 0)
    &&& h.file_locking2 == Some(d[0xA8] == 1)
    &&& h.first_available_record == Some(u16_le(d, 0x20) as u64)
    &&& h.header_integrity_enabled == Some(
        d[0x10] == 0 && d[0x11] == 0 && d[0x12] == 0 && d[0x13] == 0,
    )
    &&& h.reuse_deleted_records == Some(d[0xA4] == 1)
}

/// The record length that the header region `d` declares for its layout.
pub open spec fn declared_record_length(d: Seq<u8>) -> int {
    if d.len() == LEGACY_HEADER_SIZE {
        u16_le(d, 0x4E)
    } else {
        u16_le(d, 0x9A)
    }
}

/// What the marker at 0x1C of a table file's first (up to 3072) bytes says:
/// `Some(n)` keeps the first `n` bytes as the header, `None` is an unknown
/// layout.
pub open spec fn header_extent(probe: Seq<u8>) -> Option<int> {
    if probe.len() < 0x1E {
        None
    } else if probe[0x1C] == 0x1E && probe[0x1D] == 0x1E {
        Some(probe.len() as int)
    } else if probe[0x1C] == 0 && probe[0x1D] == 0 {
        Some(min_int(probe.len() as int, 512))
    } else {
        None
    }
}

/// The offsets of the first `n` records of a column table.
pub open spec fn record_offsets(s: Seq<u8>, n: int) -> Seq<u64> {
    Seq::new(n as nat, |i: int| u16_le(chunk(s, 8, i), 0) as u64)
}

/// The total of the first `k` reconciled column lengths.
pub open spec fn reconciled_total(offsets: Seq<u64>, k: int, record_length: int) -> int
    decreases k,
{
    if k <= 0 {
        0
    } else {
        reconciled_total(offsets, k - 1, record_length) + reconciled_length(
            offsets,
            k - 1,
            record_length,
        )
    }
}

/// The total length of the columns that a header of either layout
/// describes, with known column names `names`.
pub open spec fn columns_span(d: Seq<u8>, names: Seq<Seq<char>>) -> int {
    if d.len() == LEGACY_HEADER_SIZE {
        let s = d.subrange(0xC4, 0x1FD);
        let n = min_int(s.len() as int / 8, generated_names(d[0x59] as int, names).len() as int);
        declared_lengths_total(s, n)
    } else {
        let s = d.subrange(0x2E0, 0xAD8);
        let n = min_int(s.len() as int / 8, generated_names(d[0xA5] as int, names).len() as int);
        reconciled_total(record_offsets(s, n), n, u16_le(d, 0x9A))
    }
}

/// What decoding the header region `d` gives, with known column names
/// `names` and file path `path`: a format error for a length of no known
/// layout, a zero record length, or columns that overrun the record;
/// otherwise the header that `d` describes.
pub open spec fn header_outcome(
    d: Seq<u8>,
    names: Seq<Seq<char>>,
    path: Seq<char>,
    r: Result<Header, FerricError>,
) -> bool {
    if d.len() != LEGACY_HEADER_SIZE && d.len() != CURRENT_HEADER_SIZE {
        r == Err::<Header, FerricError>(FerricError::Format)
    } else if declared_record_length(d) == 0 {
        r == Err::<Header, FerricError>(FerricError::Format)
    } else if columns_span(d, names) > declared_record_length(d) {
        r == Err::<Header, FerricError>(FerricError::Format)
    } else {
        r matches Ok(h) && h.filepath@ == path && (if d.len() == LEGACY_HEADER_SIZE {
            legacy_header_matches(h, d, names)
        } else {
            current_header_matches(h, d, names)
        })
    }
}

/// Whether the columns fit in a record of `record_length` bytes.
fn columns_fit(columns: &Vec<Column>, record_length: u64) -> (r: bool)
    ensures
        r == (lengths_total(columns@, columns@.len() as int) <= record_length),
{
    let mut total: u64 = 0;
    let mut i: usize = 0;
    while i < columns.len()
        invariant
            i <= columns@.len(),
            total == lengths_total(columns@, i as int),
            total <= record_length,
        decreases columns@.len() - i,
    {
        let len = columns[i].length;
        if len > record_length - total {
            proof {
                lemma_lengths_total_grows(columns@, i + 1, columns@.len() as int);
            }
            return false;
        }
        total = total + len;
        i = i + 1;
    }
    true
}

proof fn lemma_lengths_total_grows(v: Seq<Column>, k: int, j: int)
    requires
        0 <= k <= j <= v.len(),
    ensures
        lengths_total(v, k) <= lengths_total(v, j),
    decreases j - k,
{
    if k < j {
        lemma_lengths_total_grows(v, k, j - 1);
    }
}

proof fn lemma_reconciled_lengths(v: Seq<Column>, record_length: int, k: int)
    requires
        0 <= k <= v.len(),
        forall|i: int|
            0 <= i < v.len() ==> #[trigger] v[i].length == reconciled_length(
                column_offsets(v),
                i,
                record_length,
            ),
    ensures
        lengths_total(v, k) == reconciled_total(column_offsets(v), k, record_length),
    decreases k,
{
    if k > 0 {
        lemma_reconciled_lengths(v, record_length, k - 1);
        assert(v[k - 1].length == reconciled_length(column_offsets(v), k - 1, record_length));
    }
}

fn abs_diff_u64(a: u64, b: u64) -> (r: u64)
    ensures
        r == abs_diff(a as int, b as int),
{
    if a < b {
        b - a
    } else {
        a - b
    }
}

/// Derives the lengths of 3.0 columns from their offsets.
fn ensure_column_sizes(columns: &mut Vec<Column>, record_length: u64)
    ensures
        final(columns)@.len() == old(columns)@.len(),
        forall|i: int|
            0 <= i < final(columns)@.len() ==> {
                let c = #[trigger] final(columns)@[i];
                let o = old(columns)@[i];
                &&& c.name == o.name
                &&& c.offset == o.offset
                &&& c.main_index == o.main_index
                &&& c.decimal_points == o.decimal_points
                &&& c.data_type == o.data_type
                &&& c.related_file == o.related_file
                &&& c.related_field == o.related_field
                &&& c.length == reconciled_length(
                    column_offsets(old(columns)@),
                    i,
                    record_length as int,
                )
            },
{
    let n = columns.len();
    let ghost offs = column_offsets(columns@);
    let mut offsets: Vec<u64> = Vec::new();
    let mut i: usize = 0;
    while i < n
        invariant
            i <= n,
            n == columns@.len(),
            offs == column_offsets(columns@),
            offsets@ == offs.subrange(0, i as int),
        decreases n - i,
    {
        offsets.push(columns[i].offset);
        i = i + 1;
        assert(offsets@ =~= offs.subrange(0, i as int));
    }
    assert(offsets@ =~= offs);
    let ghost start = columns@;
    let mut k: usize = 0;
    while k < n
        invariant
            k <= n,
            n == columns@.len(),
            n == start.len(),
            offsets@ == offs,
            offs == column_offsets(start),
            forall|i: int|
                0 <= i < n ==> {
                    let c = #[trigger] columns@[i];
                    let o = start[i];
                    &&& c.name == o.name
                    &&& c.offset == o.offset
                    &&& c.main_index == o.main_index
                    &&& c.decimal_points == o.decimal_points
                    &&& c.data_type == o.data_type
                    &&& c.related_file == o.related_file
                    &&& c.related_field == o.related_field
                    &&& (i < k ==> c.length == reconciled_length(offs, i, record_length as int))
                    &&& (i >= k ==> c.length == o.length)
                },
        decreases n - k,
    {
        let len: u64 = if n == 1 {
            record_length
        } else if k == n - 1 {
            abs_diff_u64(offsets[k], offsets[k - 1])
        } else {
            abs_diff_u64(offsets[k + 1], offsets[k])
        };
        columns[k].length = len;
        k = k + 1;
    }
}

impl Header {
    /// Decodes a header region: 512 bytes for the 2.3b layout, 3072 for
    /// 3.0. Any other length, or a zero record length, is a format error.
    /// Column names are the known `column_names`, then placeholders.
    pub fn from_bytes(header_data: &[u8], column_names: Vec<String>, filepath: Option<&str>) -> (r:
        Result<Header, FerricError>)
        ensures
            header_outcome(
                header_data@,
                names_view(column_names@),
                match filepath {
                    Some(p) => p@,
                    None => Seq::<char>::empty(),
                },
                r,
            ),
    {
        let len = header_data.len();
        if len != LEGACY_HEADER_SIZE && len != CURRENT_HEADER_SIZE {
            return Err(FerricError::Format);
        }
        let legacy: bool = len == LEGACY_HEADER_SIZE;
        let record_length: u16 = if legacy {
            read_u16_le(header_data, 0x4E)
        } else {
            read_u16_le(header_data, 0x9A)
        };
        if record_length == 0 {
            return Err(FerricError::Format);
        }
        let ghost known = names_view(column_names@);
        let field_count: u8 = if legacy { header_data[0x59] } else { header_data[0xA5] };
        let names = match TagFile::generate_column_names(field_count, Some(column_names)) {
            Ok(v) => v,
            Err(e) => {
                return Err(e);
            },
        };
        let ghost names_seq = names@;
        assert(names_view(names_seq) == generated_names(field_count as int, known));
        let path: String = match filepath {
            Some(p) => String::from_str(p),
            None => String::new(),
        };
        let (index_bytes, name_bytes, column_bytes) = if legacy {
            (&header_data[0x64..0xB4], &header_data[0xB4..0xBD], &header_data[0xC4..0x1FD])
        } else {
            (&header_data[0xB0..0x1D0], &header_data[0x2D0..0x2E0], &header_data[0x2E0..0xAD8])
        };
        let indexes = match Index::table_from_bytes(index_bytes) {
            Ok(v) => v,
            Err(e) => {
                return Err(e);
            },
        };
        let file_root_name = match string_from_bytes(name_bytes, Some(false)) {
            Ok(s) => s,
            Err(e) => {
                return Err(e);
            },
        };
        let mut columns = match Column::table_from_bytes(column_bytes, Some(names)) {
            Ok(v) => v,
            Err(e) => {
                return Err(e);
            },
        };
        let rl = record_length as u64;
        let fill_bytes_per_block: u64 = 512 % (if rl < 512 { rl } else { 512 });
        let record_count = read_u16_le(header_data, 0x08) as u64;
        let max_record_count = read_u16_le(header_data, 0x0C) as u64;
        let highest_record_count = read_u16_le(header_data, 0) as u64;
        if legacy {
            if !columns_fit(&columns, rl) {
                proof {
                    let s = header_data@.subrange(0xC4, 0x1FD);
                    lemma_lengths_follow_records(
                        columns@,
                        s,
                        names_view(names_seq),
                        columns@.len() as int,
                    );
                }
                return Err(FerricError::Format);
            }
            proof {
                let s = header_data@.subrange(0xC4, 0x1FD);
                lemma_lengths_follow_records(
                    columns@,
                    s,
                    names_view(names_seq),
                    columns@.len() as int,
                );
            }
            let per_block: u64 = 512 / rl;
            Ok(Header {
                field_count: field_count as u64,
                record_count,
                record_length: rl,
                max_record_count,
                highest_record_count,
                reuse_deleted_space: header_data[0x58] == 0,
                multiuser_reread_active: header_data[0x5C] != 0,
                indexes,
                file_root_name,
                columns,
                records_per_block: if per_block > 1 { per_block } else { 1 },
                fill_bytes_per_block,
                version: Version::V23B,
                filepath: path,
                compression_type: None,
                file_locking1: None,
                file_locking2: None,
                first_available_record: None,
                header_integrity_enabled: None,
                reuse_deleted_records: None,
            })
        } else {
            let ghost before = columns@;
            ensure_column_sizes(&mut columns, rl);
            proof {
                let s = header_data@.subrange(0x2E0, 0xAD8);
                let nm = generated_names(field_count as int, known);
                assert(column_offsets(columns@) =~= column_offsets(before));
                assert forall|i: int| 0 <= i < columns@.len() implies #[trigger] column_fields_match(
                    columns@[i],
                    chunk(s, 8, i),
                    nm[i],
                ) by {
                    assert(crate::column::column_matches(before[i], chunk(s, 8, i), names_view(names_seq)[i]));
                }
                let n = columns@.len() as int;
                assert forall|i: int| 0 <= i < n implies #[trigger] column_offsets(columns@)[i]
                    == record_offsets(s, n)[i] by {
                    assert(column_fields_match(columns@[i], chunk(s, 8, i), nm[i]));
                }
                assert(column_offsets(columns@) =~= record_offsets(s, n));
                lemma_reconciled_lengths(columns@, rl as int, n);
            }
            if !columns_fit(&columns, rl) {
                return Err(FerricError::Format);
            }
            Ok(Header {
                field_count: field_count as u64,
                record_count,
                record_length: rl,
                max_record_count,
                highest_record_count,
                reuse_deleted_space: header_data[0x4A] == 0,
                multiuser_reread_active: false,
                indexes,
                file_root_name,
                columns,
                records_per_block: read_u16_le(header_data, 0x98) as u64,
                fill_bytes_per_block,
                version: Version::V30,
                filepath: path,
                compression_type: CompressionType::from_code(header_data[0x1F]),
                file_locking1: Some(header_data[0x41] != 0),
                file_locking2: Some(header_data[0xA8] == 1),
                first_available_record: Some(read_u16_le(header_data, 0x20) as u64),
                header_integrity_enabled: Some(
                    header_data[0x10] == 0 && header_data[0x11] == 0 && header_data[0x12] == 0
                        && header_data[0x13] == 0,
                ),
                reuse_deleted_records: Some(header_data[0xA4] == 1),
            })
        }
    }

    /// The header region within the first (up to 3072) bytes of a table
    /// file, as the layout marker at 0x1C selects it: `1E 1E` keeps all
    /// bytes, `00 00` the first 512; any other marker is a format error.
    pub fn header_bytes_from(probe: &[u8]) -> (r: Result<Vec<u8>, FerricError>)
        ensures
            match header_extent(probe@) {
                Some(n) => r matches Ok(v) && v@ == probe@.subrange(0, n),
                None => r == Err::<Vec<u8>, FerricError>(FerricError::Format),
            },
    {
        if probe.len() < 0x1E {
            return Err(FerricError::Format);
        }
        let end: usize = if probe[0x1C] == 0x1E && probe[0x1D] == 0x1E {
            probe.len()
        } else if probe[0x1C] == 0 && probe[0x1D] == 0 {
            if probe.len() < 512 { probe.len() } else { 512 }
        } else {
            return Err(FerricError::Format);
        };
        let mut out: Vec<u8> = Vec::new();
        let mut i: usize = 0;
        while i < end
            invariant
                i <= end <= probe@.len(),
                out@ == probe@.subrange(0, i as int),
            decreases end - i,
        {
            out.push(probe[i]);
            i = i + 1;
            assert(out@ =~= probe@.subrange(0, i as int));
        }
        Ok(out)
    }
}

} // verus!

verus! {

/// The total length of the first `k` columns.
pub open spec fn lengths_total(v: Seq<Column>, k: int) -> int
    decreases k,
{
    if k <= 0 {
        0
    } else {
        lengths_total(v, k - 1) + v[k - 1].length
    }
}

/// The total of the length bytes of the first `k` records of a column table.
pub open spec fn declared_lengths_total(s: Seq<u8>, k: int) -> int
    decreases k,
{
    if k <= 0 {
        0
    } else {
        declared_lengths_total(s, k - 1) + chunk(s, 8, k - 1)[3]
    }
}

proof fn lemma_lengths_follow_records(v: Seq<Column>, s: Seq<u8>, names: Seq<Seq<char>>, k: int)
    requires
        column_table_matches(v, s, names),
        0 <= k <= v.len(),
    ensures
        lengths_total(v, k) == declared_lengths_total(s, k),
    decreases k,
{
    if k > 0 {
        lemma_lengths_follow_records(v, s, names, k - 1);
        assert(crate::column::column_matches(v[k - 1], chunk(s, 8, k - 1), names[k - 1]));
    }
}

/// A 2.3b header with a field count between 1 and 39 (its column slots),
/// no more known names than fields, a non-zero record length, and column
/// records whose length bytes add up to at most that record length decodes
/// to exactly `field_count` columns, each as long as its record says, whose
/// lengths add up to at most the record length.
pub proof fn lemma_legacy_columns_fit(
    d: Seq<u8>,
    names: Seq<Seq<char>>,
    path: Seq<char>,
    r: Result<Header, FerricError>,
)
    requires
        header_outcome(d, names, path, r),
        d.len() == LEGACY_HEADER_SIZE,
        1 <= d[0x59] <= 39,
        names.len() <= d[0x59],
        u16_le(d, 0x4E) > 0,
        declared_lengths_total(d.subrange(0xC4, 0x1FD), d[0x59] as int) <= u16_le(d, 0x4E),
    ensures
        r matches Ok(h) && {
            &&& h.version == Version::V23B
            &&& h.field_count == d[0x59]
            &&& h.columns@.len() == h.field_count
            &&& forall|k: int|
                0 <= k < h.columns@.len() ==> (#[trigger] h.columns@[k]).length == d[0xC4 + 8 * k
                    + 3]
            &&& lengths_total(h.columns@, h.columns@.len() as int) <= h.record_length
        },
{
    let s = d.subrange(0xC4, 0x1FD);
    let nm = generated_names(d[0x59] as int, names);
    assert(nm.len() == d[0x59]);
    assert(columns_span(d, names) == declared_lengths_total(s, d[0x59] as int));
    let h = r->Ok_0;
    assert(h.columns@.len() == d[0x59]);
    lemma_lengths_follow_records(h.columns@, s, nm, h.columns@.len() as int);
    assert forall|k: int| 0 <= k < h.columns@.len() implies (#[trigger] h.columns@[k]).length == d[0xC4
        + 8 * k + 3] by {
        assert(crate::column::column_matches(h.columns@[k], chunk(s, 8, k), nm[k]));
        assert(chunk(s, 8, k)[3] == d[0xC4 + 8 * k + 3]);
    }
}

} // verus!

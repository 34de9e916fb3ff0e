use vstd::prelude::*;

use crate::enums::{collation_of, IndexCollation, IndexType};
use crate::errors::FerricError;
use crate::segment::{segments_of, FieldSegment};

verus! {

/// An index definition from a table header.
#[derive(Clone, Debug)]
pub struct Index {
    /// Batch or online.
    pub index_type: IndexType,
    /// The number of columns whose data make up the index.
    pub field_count: u8,
    /// The index's column segments, in position order.
    pub segments: Vec<FieldSegment>,
    /// The index's sort order.
    pub collation: IndexCollation,
}

/// The position of the collation byte in an index record: after six
/// segment slots in a short record, after sixteen in a long one.
pub open spec fn collation_at(len: int) -> int {
    if len < 18 { 7 } else { 17 }
}

/// An index record decodes when it reaches its collation byte and names
/// at least one field.
pub open spec fn index_record_ok(s: Seq<u8>) -> bool {
    s.len() > collation_at(s.len() as int) && s[0] % 128 != 0
}

/// `ix` is what the index record `s` describes.
pub open spec fn index_matches(ix: Index, s: Seq<u8>) -> bool {
    let end = collation_at(s.len() as int);
    &&& ix.index_type == (if s[0] >= 128 { IndexType::Batch } else { IndexType::Online })
    &&& ix.field_count == s[0] % 128
    &&& ix.segments@ == segments_of(s.subrange(1, end))
    &&& ix.collation == collation_of(s[end])
}

/// The record size of an index table: 8 bytes when the table's length is
/// not a multiple of 18, else 18.
pub open spec fn index_record_size(len: int) -> int {
    if len % 18 != 0 { 8 } else { 18 }
}

pub open spec fn chunk(s: Seq<u8>, size: int, k: int) -> Seq<u8> {
    s.subrange(k * size, k * size + size)
}

/// The numbers of the records among the first `k` of an index table that
/// decode, in order.
pub open spec fn decodable_records(s: Seq<u8>, size: int, k: int) -> Seq<int>
    decreases k,
{
    if k <= 0 {
        Seq::empty()
    } else if index_record_ok(chunk(s, size, k - 1)) {
        decodable_records(s, size, k - 1).push(k - 1)
    } else {
        decodable_records(s, size, k - 1)
    }
}

/// `v` holds the decodable records of the index table `s`, in order.
pub open spec fn index_table_matches(v: Seq<Index>, s: Seq<u8>) -> bool {
    let size = index_record_size(s.len() as int);
    let ks = decodable_records(s, size, s.len() as int / size);
    &&& v.len() == ks.len()
    &&& forall|j: int| 0 <= j < ks.len() ==> #[trigger] index_matches(v[j], chunk(s, size, ks[j]))
}

impl Index {
    /// Decodes one index record. It fails when the record is too short to
    /// hold its collation byte or names no field.
    pub fn from_bytes(data: &[u8]) -> (r: Result<Index, FerricError>)
        ensures
            index_record_ok(data@) ==> (r matches Ok(ix) && index_matches(ix, data@)),
            !index_record_ok(data@) ==> r is Err,
            data@.len() > collation_at(data@.len() as int) && data@[0] % 128 == 0 ==> r
                == Err::<Index, FerricError>(FerricError::Format),
    {
        let end: usize = if data.len() < 18 { 7 } else { 17 };
        if data.len() <= end {
            return Err(FerricError::Internal);
        }
        let field_count: u8 = data[0] % 128;
        if field_count < 1 {
            return Err(FerricError::Format);
        }
        let segments = FieldSegment::from_bytes(&data[1..end]);
        Ok(Index {
            index_type: IndexType::from_flag(data[0] >= 128),
            field_count,
            segments,
            collation: IndexCollation::from_code(data[end]),
        })
    }

    /// Decodes an index table, keeping the records that decode.
    pub fn table_from_bytes(data: &[u8]) -> (r: Result<Vec<Index>, FerricError>)
        ensures
            r matches Ok(v) && index_table_matches(v@, data@),
    {
        let size: usize = if data.len() % 18 != 0 { 8 } else { 18 };
        let n: usize = data.len();
        let count: usize = n / size;
        let ghost sz = size as int;
        let mut out: Vec<Index> = Vec::new();
        let mut k: usize = 0;
        while k < count
            invariant
                k <= count,
                n == data@.len(),
                count == n as int / sz,
                sz == size,
                size == 8 || size == 18,
                size == index_record_size(data@.len() as int),
                out@.len() == decodable_records(data@, sz, k as int).len(),
                forall|j: int|
                    0 <= j < out@.len() ==> #[trigger] index_matches(
                        out@[j],
                        chunk(data@, sz, decodable_records(data@, sz, k as int)[j]),
                    ),
            decreases count - k,
        {
            let ghost (kk, ss, ll) = (k as int, size as int, n as int);
            assert(kk * ss + ss <= ll) by (nonlinear_arith)
                requires kk < count, count == ll / ss, ss > 0, ll >= 0;
            let start: usize = k * size;
            let piece = &data[start..start + size];
            assert(piece@ == chunk(data@, sz, k as int));
            let ghost before = decodable_records(data@, sz, k as int);
            match Index::from_bytes(piece) {
                Ok(ix) => {
                    out.push(ix);
                },
                Err(_) => {},
            }
            k = k + 1;
            assert forall|j: int| 0 <= j < out@.len() implies #[trigger] index_matches(
                out@[j],
                chunk(data@, sz, decodable_records(data@, sz, k as int)[j]),
            ) by {
                if j < before.len() {
                    assert(decodable_records(data@, sz, k as int)[j] == before[j]);
                }
            }
        }
        Ok(out)
    }
}

} // verus!

use vstd::prelude::*;

verus! {

/// One column taking part in an index, at a position within that index.
#[derive(Clone, Copy, Debug, PartialEq, Eq, Structural)]
pub struct FieldSegment {
    /// The zero-based column number within the table.
    pub column: u8,
    /// The segment's position within its index.
    pub segment: u8,
}

/// The segments that a run of segment bytes describes: byte `i` names the
/// column at position `i`.
pub open spec fn segments_of(s: Seq<u8>) -> Seq<FieldSegment> {
    Seq::new(s.len(), |i: int| FieldSegment { column: s[i], segment: i as u8 })
}

impl FieldSegment {
    pub fn from_bytes(data: &[u8]) -> (r: Vec<FieldSegment>)
        requires
            data@.len() <= 256,
        ensures
            r@ == segments_of(data@),
    {
        let mut out: Vec<FieldSegment> = Vec::new();
        let mut i: usize = 0;
        while i < data.len()
            invariant
                i <= data@.len() <= 256,
                out@ == segments_of(data@.subrange(0, i as int)),
            decreases data@.len() - i,
        {
            out.push(FieldSegment { column: data[i], segment: i as u8 });
            i = i + 1;
            assert(out@ =~= segments_of(data@.subrange(0, i as int)));
        }
        assert(data@.subrange(0, data@.len() as int) =~= data@);
        out
    }
}

} // verus!

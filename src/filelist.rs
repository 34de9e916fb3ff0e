use vstd::prelude::*;

use vstd::std_specs::iter::IteratorSpec;

use crate::errors::FerricError;
use crate::fold::{caseless_eq, caseless_match};
use crate::index::chunk;
use crate::text::{ascii_text, string_from_bytes};

verus! {

/// The size of one registry entry.
pub const ENTRY_SIZE: usize = 128;

/// The registry file's canonical name.
pub open spec fn registry_name() -> Seq<char> {
    "filelist.cfg"@
}

/// How a caller designates a table: by number or by name.
#[derive(Clone, Debug)]
pub enum TableKey {
    /// A table number; negative numbers count back from the registry's length.
    Index(i64),
    /// A root file name or alias, matched without regard to case.
    Name(String),
}

/// One entry of the table registry.
#[derive(Clone, Debug)]
pub struct FileListEntry {
    /// The table's number within the database.
    pub file_number: usize,
    /// The table's file name, without extension.
    pub root_name: String,
    /// The name the application knows the table by.
    pub dataflex_name: Option<String>,
    /// A human-readable description of the table.
    pub description: Option<String>,
}

pub open spec fn root_text(s: Seq<u8>) -> Seq<char> {
    ascii_text(s.subrange(0, 40))
}

pub open spec fn alias_text(s: Seq<u8>) -> Seq<char> {
    ascii_text(s.subrange(41, 73))
}

pub open spec fn description_text(s: Seq<u8>) -> Seq<char> {
    ascii_text(s.subrange(73, s.len() as int))
}

/// A registry slot decodes as entry `n` when it is long enough, names the
/// registry itself exactly when `n` is 0, and (beyond slot 0) carries an
/// alias or a description.
pub open spec fn registry_slot_ok(s: Seq<u8>, n: int) -> bool {
    &&& s.len() >= 73
    &&& (n == 0 <==> caseless_match(root_text(s), registry_name()))
    &&& !(n > 0 && alias_text(s).len() == 0 && description_text(s).len() == 0)
}

/// `e` is entry `n` as decoded from the slot `s`.
pub open spec fn entry_matches(e: FileListEntry, s: Seq<u8>, n: int) -> bool {
    &&& e.file_number == n
    &&& e.root_name@ == root_text(s)
    &&& e.dataflex_name matches Some(a) && a@ == alias_text(s)
    &&& e.description matches Some(d) && d@ == description_text(s)
}

/// The numbers of the slots among the first `k` of a registry that decode.
pub open spec fn decodable_slots(s: Seq<u8>, k: int) -> Seq<int>
    decreases k,
{
    if k <= 0 {
        Seq::empty()
    } else if registry_slot_ok(chunk(s, ENTRY_SIZE as int, k - 1), k - 1) {
        decodable_slots(s, k - 1).push(k - 1)
    } else {
        decodable_slots(s, k - 1)
    }
}

/// `v` holds the entries of the registry `s` that decode, in slot order.
pub open spec fn registry_matches(v: Seq<FileListEntry>, s: Seq<u8>) -> bool {
    let ks = decodable_slots(s, s.len() as int / ENTRY_SIZE as int);
    &&& v.len() == ks.len()
    &&& forall|j: int|
        0 <= j < ks.len() ==> #[trigger] entry_matches(v[j], chunk(s, ENTRY_SIZE as int, ks[j]), ks[j])
}

/// The alias of an entry, or the empty text.
pub open spec fn alias_or_empty(e: FileListEntry) -> Seq<char> {
    match e.dataflex_name {
        Some(a) => a@,
        None => ""@,
    }
}

/// Whether entry `e` is the table that `key` designates.
pub open spec fn entry_is(e: FileListEntry, key: TableKey) -> bool {
    match key {
        TableKey::Name(n) => caseless_match(n@, e.root_name@) || caseless_match(n@, alias_or_empty(e)),
        TableKey::Index(i) => i >= 0 && e.file_number == i,
    }
}

/// A key with a negative table number made relative to `len` entries;
/// `None` when it stays negative.
pub open spec fn normalized_key(key: TableKey, len: int) -> Option<TableKey> {
    match key {
        TableKey::Index(i) => {
            let j = if i > -1 { i as int } else { len + i };
            if j < 0 { None } else { Some(TableKey::Index(j as i64)) }
        },
        TableKey::Name(n) => Some(TableKey::Name(n)),
    }
}

/// `r` is the first entry of `files` that `key` designates, or `None`.
pub open spec fn first_entry(files: Seq<FileListEntry>, key: TableKey, r: Option<FileListEntry>) -> bool {
    match r {
        Some(e) => exists|j: int|
            0 <= j < files.len() && files[j] == e && #[trigger] entry_is(files[j], key) && forall|
                i: int,
            |
                0 <= i < j ==> !entry_is(#[trigger] files[i], key),
        None => forall|j: int| 0 <= j < files.len() ==> !entry_is(#[trigger] files[j], key),
    }
}

impl FileListEntry {
    /// Decodes one 128-byte registry slot as entry `idx` (0 when absent):
    /// the root name in bytes 0..40, the alias in 41..73, the description
    /// after. Slot 0 must name the registry itself and no other slot may;
    /// a slot beyond 0 with neither alias nor description is empty.
    pub fn from_bytes(data: &[u8], idx: Option<usize>) -> (r: Result<FileListEntry, FerricError>)
        ensures
            ({
                let n = match idx { Some(i) => i as int, None => 0 };
                &&& registry_slot_ok(data@, n) ==> (r matches Ok(e) && entry_matches(e, data@, n))
                &&& !registry_slot_ok(data@, n) ==> r is Err
            }),
    {
        let file_number: usize = match idx {
            Some(i) => i,
            None => 0,
        };
        if data.len() < 73 {
            return Err(FerricError::Internal);
        }
        let root_name = match string_from_bytes(&data[0..40], Some(false)) {
            Ok(s) => s,
            Err(e) => {
                return Err(e);
            },
        };
        let dataflex_name = match string_from_bytes(&data[41..73], Some(false)) {
            Ok(s) => s,
            Err(e) => {
                return Err(e);
            },
        };
        let description = match string_from_bytes(&data[73..data.len()], Some(false)) {
            Ok(s) => s,
            Err(e) => {
                return Err(e);
            },
        };
        let is_registry = caseless_eq(root_name.as_str(), "filelist.cfg");
        if (file_number == 0 && !is_registry) || (file_number > 0 && is_registry) {
            return Err(FerricError::Format);
        }
        if file_number > 0 && dataflex_name.as_str().unicode_len() == 0
            && description.as_str().unicode_len() == 0 {
            return Err(FerricError::NotFound);
        }
        Ok(
            FileListEntry {
                file_number,
                root_name,
                dataflex_name: Some(dataflex_name),
                description: Some(description),
            },
        )
    }

    /// Whether this entry is the table that `key` designates: by a
    /// case-insensitive match of its root name or alias, or by its number.
    pub fn is(&self, key: &TableKey) -> (r: bool)
        ensures
            r == entry_is(*self, *key),
    {
        match key {
            TableKey::Name(name) => {
                if caseless_eq(name.as_str(), self.root_name.as_str()) {
                    return true;
                }
                match &self.dataflex_name {
                    Some(a) => caseless_eq(name.as_str(), a.as_str()),
                    None => caseless_eq(name.as_str(), ""),
                }
            },
            TableKey::Index(i) => *i >= 0 && *i as u64 == self.file_number as u64,
        }
    }

    /// The name of the entry's table file: its root name with `.dat`.
    pub fn table_file_name(&self) -> (r: String)
        ensures
            r@ == self.root_name@ + ".dat"@,
    {
        let mut s = self.root_name.clone();
        s.append(".dat");
        s
    }
}

/// The table registry: the entries that decoded, in slot order.
#[derive(Clone, Debug)]
pub struct FileList {
    pub files: Vec<FileListEntry>,
}

impl FileList {
    /// Decodes a registry: one entry per whole 128-byte slot, numbered by
    /// slot, keeping the slots that decode.
    pub fn from_bytes(data: &[u8]) -> (r: Result<FileList, FerricError>)
        ensures
            r matches Ok(fl) && registry_matches(fl.files@, data@),
    {
        let n: usize = data.len();
        let count: usize = n / ENTRY_SIZE;
        let mut out: Vec<FileListEntry> = Vec::new();
        let mut k: usize = 0;
        while k < count
            invariant
                k <= count,
                n == data@.len(),
                count == n as int / ENTRY_SIZE as int,
                out@.len() == decodable_slots(data@, k as int).len(),
                forall|j: int|
                    0 <= j < out@.len() ==> #[trigger] entry_matches(
                        out@[j],
                        chunk(data@, ENTRY_SIZE as int, decodable_slots(data@, k as int)[j]),
                        decodable_slots(data@, k as int)[j],
                    ),
            decreases count - k,
        {
            let ghost (kk, ll) = (k as int, n as int);
            assert(kk * 128 + 128 <= ll) by (nonlinear_arith)
                requires kk < count, count == ll / 128, ll >= 0;
            let start: usize = k * ENTRY_SIZE;
            let piece = &data[start..start + ENTRY_SIZE];
            assert(piece@ == chunk(data@, ENTRY_SIZE as int, k as int));
            let ghost before = decodable_slots(data@, k as int);
            match FileListEntry::from_bytes(piece, Some(k)) {
                Ok(e) => {
                    out.push(e);
                },
                Err(_) => {},
            }
            k = k + 1;
            assert forall|j: int| 0 <= j < out@.len() implies #[trigger] entry_matches(
                out@[j],
                chunk(data@, ENTRY_SIZE as int, decodable_slots(data@, k as int)[j]),
                decodable_slots(data@, k as int)[j],
            ) by {
                if j < before.len() {
                    assert(decodable_slots(data@, k as int)[j] == before[j]);
                }
            }
        }
        Ok(FileList { files: out })
    }

    pub fn len(&self) -> (r: usize)
        ensures
            r == self.files@.len(),
    {
        self.files.len()
    }

    pub fn is_empty(&self) -> (r: bool)
        ensures
            r == (self.files@.len() == 0),
    {
        self.files.len() == 0
    }

    /// The entries in slot order.
    pub fn iter(&self) -> (r: std::slice::Iter<'_, FileListEntry>)
        ensures
            IteratorSpec::remaining(&r) == self.files@.as_ref(),
    {
        proof {
            broadcast use vstd::std_specs::slice::axiom_spec_slice_iter;
        }
        self.files.as_slice().iter()
    }

    /// The first entry that `key` designates; a negative table number
    /// counts back from the number of entries.
    pub fn get(&self, key: &TableKey) -> (r: Option<&FileListEntry>)
        ensures
            match normalized_key(*key, self.files@.len() as int) {
                None => r is None,
                Some(k) => first_entry(
                    self.files@,
                    k,
                    match r { Some(e) => Some(*e), None => None },
                ),
            },
    {
        let normal: TableKey = match key {
            TableKey::Index(i) => {
                let len = self.files.len();
                if *i > -1 {
                    TableKey::Index(*i)
                } else if len as i128 + (*i as i128) < 0 {
                    return None;
                } else {
                    TableKey::Index((len as i128 + *i as i128) as i64)
                }
            },
            TableKey::Name(n) => TableKey::Name(n.clone()),
        };
        assert(normalized_key(*key, self.files@.len() as int) == Some(normal));
        let mut j: usize = 0;
        while j < self.files.len()
            invariant
                j <= self.files@.len(),
                normalized_key(*key, self.files@.len() as int) == Some(normal),
                forall|i: int| 0 <= i < j ==> !entry_is(#[trigger] self.files@[i], normal),
            decreases self.files@.len() - j,
        {
            if self.files[j].is(&normal) {
                assert(entry_is(self.files@[j as int], normal));
                return Some(&self.files[j]);
            }
            j = j + 1;
        }
        None
    }

    /// Whether some entry is the table that `key` designates.
    pub fn contains(&self, key: &TableKey) -> (r: bool)
        ensures
            r == (match normalized_key(*key, self.files@.len() as int) {
                None => false,
                Some(k) => exists|j: int|
                    0 <= j < self.files@.len() && #[trigger] entry_is(self.files@[j], k),
            }),
    {
        match self.get(key) {
            Some(_) => true,
            None => false,
        }
    }
}

} // verus!

verus! {

proof fn lemma_decodable_slots_ok(s: Seq<u8>, k: int)
    ensures
        forall|j: int|
            0 <= j < decodable_slots(s, k).len() ==> 0 <= #[trigger] decodable_slots(s, k)[j] < k
                && registry_slot_ok(
                chunk(s, ENTRY_SIZE as int, decodable_slots(s, k)[j]),
                decodable_slots(s, k)[j],
            ),
    decreases k,
{
    if k > 0 {
        lemma_decodable_slots_ok(s, k - 1);
        let prev = decodable_slots(s, k - 1);
        assert forall|j: int| 0 <= j < decodable_slots(s, k).len() implies 0
            <= #[trigger] decodable_slots(s, k)[j] < k && registry_slot_ok(
            chunk(s, ENTRY_SIZE as int, decodable_slots(s, k)[j]),
            decodable_slots(s, k)[j],
        ) by {
            if j < prev.len() {
                assert(decodable_slots(s, k)[j] == prev[j]);
            }
        }
    }
}

/// A registry whose first slot does not name the registry file itself has
/// no entry numbered 0: that slot is left out.
pub proof fn lemma_foreign_first_slot_excluded(data: Seq<u8>, v: Seq<FileListEntry>)
    requires
        registry_matches(v, data),
        data.len() >= ENTRY_SIZE,
        !caseless_match(root_text(chunk(data, ENTRY_SIZE as int, 0)), registry_name()),
    ensures
        forall|j: int| 0 <= j < v.len() ==> (#[trigger] v[j]).file_number != 0,
{
    let ks = decodable_slots(data, data.len() as int / ENTRY_SIZE as int);
    lemma_decodable_slots_ok(data, data.len() as int / ENTRY_SIZE as int);
    assert forall|j: int| 0 <= j < v.len() implies (#[trigger] v[j]).file_number != 0 by {
        assert(entry_matches(v[j], chunk(data, ENTRY_SIZE as int, ks[j]), ks[j]));
        assert(registry_slot_ok(chunk(data, ENTRY_SIZE as int, ks[j]), ks[j]));
    }
}

} // verus!

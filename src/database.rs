use std::collections::HashMap;
use vstd::prelude::*;

use crate::errors::FerricError;
use crate::filelist::{first_entry, normalized_key, registry_name, FileList, FileListEntry, TableKey};
use crate::fold::{caseless_eq, caseless_match};
use crate::table::{schema_matches, DataFlexTable, Row, Schema, stored};

verus! {

broadcast use vstd::std_specs::hash::group_hash_axioms;

/// A database: the registry of its tables and the tables opened so far,
/// by table number.
pub struct DataFlexDB {
    /// The directory that holds the registry and the table files.
    pub db_path: String,
    /// The table registry.
    pub filelist: FileList,
    /// The tables opened so far, by table number.
    pub tables: HashMap<u64, DataFlexTable>,
}

/// The numbers of the opened tables among the first `k` registry entries,
/// in registry order.
pub open spec fn opened_tables(
    files: Seq<FileListEntry>,
    tables: Map<u64, DataFlexTable>,
    k: int,
) -> Seq<u64>
    decreases k,
{
    if k <= 0 {
        Seq::empty()
    } else if tables.contains_key(files[k - 1].file_number as u64) {
        opened_tables(files, tables, k - 1).push(files[k - 1].file_number as u64)
    } else {
        opened_tables(files, tables, k - 1)
    }
}

/// Whether an opened table goes by `name`: its header's root name matches
/// it without regard to case.
pub open spec fn table_named(t: DataFlexTable, name: Seq<char>) -> bool {
    caseless_match(t.header.file_root_name@, name)
}

impl DataFlexDB {
    /// Every opened table keeps its cache well formed.
    pub open spec fn wf(&self) -> bool {
        forall|k: u64| #[trigger] self.tables@.contains_key(k) ==> self.tables@[k].wf()
    }

    /// The table of the entry that `key` designates, if it has been opened.
    pub open spec fn table_for(&self, key: TableKey, r: Option<DataFlexTable>) -> bool {
        match normalized_key(key, self.filelist.files@.len() as int) {
            None => r is None,
            Some(k) => {
                ||| (first_entry(self.filelist.files@, k, None) && r is None)
                ||| exists|e: FileListEntry|
                    first_entry(self.filelist.files@, k, Some(e)) && #[trigger] self.tables@.contains_key(
                        e.file_number as u64,
                    ) == r is Some && (r is Some ==> r->0 == self.tables@[e.file_number as u64])
            },
        }
    }

    /// A database over a decoded registry, with no table opened yet.
    pub fn new(db_path: String, filelist: FileList) -> (r: DataFlexDB)
        ensures
            r.db_path == db_path,
            r.filelist.files@ == filelist.files@,
            r.tables@ == Map::<u64, DataFlexTable>::empty(),
            r.wf(),
    {
        DataFlexDB { db_path, filelist, tables: HashMap::new() }
    }

    /// Whether a file name is the registry's canonical name, without regard to case.
    pub fn is_registry_name(file_name: &str) -> (r: bool)
        ensures
            r == caseless_match(file_name@, registry_name()),
    {
        caseless_eq(file_name, "filelist.cfg")
    }

    /// The number of registry entries.
    pub fn len(&self) -> (r: usize)
        ensures
            r == self.filelist.files@.len(),
    {
        self.filelist.len()
    }

    pub fn is_empty(&self) -> (r: bool)
        ensures
            r == (self.filelist.files@.len() == 0),
    {
        self.filelist.is_empty()
    }

    /// The registry entry that `key` designates.
    pub fn entry(&self, key: &TableKey) -> (r: Option<&FileListEntry>)
        ensures
            match normalized_key(*key, self.filelist.files@.len() as int) {
                None => r is None,
                Some(k) => first_entry(
                    self.filelist.files@,
                    k,
                    match r { Some(e) => Some(*e), None => None },
                ),
            },
    {
        self.filelist.get(key)
    }

    /// The opened table of the entry that `key` designates; `None` when no
    /// entry matches or its table has not been opened (or failed to open).
    pub fn get(&self, key: &TableKey) -> (r: Option<&DataFlexTable>)
        ensures
            self.table_for(*key, match r { Some(t) => Some(*t), None => None }),
    {
        match self.filelist.get(key) {
            None => None,
            Some(e) => {
                let k = e.file_number as u64;
                self.tables.get(&k)
            },
        }
    }

    /// Whether the table that `key` designates has been opened.
    pub fn contains(&self, key: &TableKey) -> (r: bool)
        ensures
            exists|t: Option<DataFlexTable>| self.table_for(*key, t) && r == t is Some,
    {
        let found = self.get(key);
        let ghost t = match found { Some(x) => Some(*x), None => None };
        assert(self.table_for(*key, t));
        found.is_some()
    }

    /// Records an opened table under its number; a table opened earlier under
    /// the same number stays.
    pub fn cache_table(&mut self, file_number: u64, table: DataFlexTable)
        requires
            old(self).wf(),
            table.wf(),
        ensures
            final(self).wf(),
            final(self).filelist.files@ == old(self).filelist.files@,
            final(self).db_path == old(self).db_path,
            old(self).tables@.contains_key(file_number) ==> final(self).tables@ == old(self).tables@,
            !old(self).tables@.contains_key(file_number) ==> final(self).tables@ == old(
                self,
            ).tables@.insert(file_number, table),
    {
        if self.tables.contains_key(&file_number) {
            return;
        }
        self.tables.insert(file_number, table);
    }

    /// Stores a decoded row as record `index` of the opened table
    /// `file_number`; see `DataFlexTable::cache_record`. A table that has
    /// not been opened is a not-found error.
    pub fn cache_record(&mut self, file_number: u64, index: u64, row: Row) -> (r: Result<
        Row,
        FerricError,
    >)
        requires
            old(self).wf(),
        ensures
            final(self).wf(),
            final(self).filelist.files@ == old(self).filelist.files@,
            !old(self).tables@.contains_key(file_number) ==> r == Err::<Row, FerricError>(
                FerricError::NotFound,
            ) && final(self).tables@ == old(self).tables@,
            old(self).tables@.contains_key(file_number) ==> ({
                let t = old(self).tables@[file_number];
                let u = final(self).tables@[file_number];
                &&& final(self).tables@.dom() == old(self).tables@.dom()
                &&& forall|k: u64| k != file_number && #[trigger] old(self).tables@.contains_key(k)
                    ==> final(self).tables@[k] == old(self).tables@[k]
                &&& u.header == t.header
                &&& (index < t.header.record_count && row@.len() == t.header.columns@.len() ==> {
                    let (m, v) = stored(t.rows@, index, row);
                    &&& u.rows@ == m
                    &&& r matches Ok(x) && x@ == v
                })
                &&& (index >= t.header.record_count ==> r == Err::<Row, FerricError>(FerricError::NotFound))
                &&& (index < t.header.record_count && row@.len() != t.header.columns@.len() ==> r
                    == Err::<Row, FerricError>(FerricError::Internal))
            }),
    {
        match self.tables.remove(&file_number) {
            None => Err(FerricError::NotFound),
            Some(mut table) => {
                let r = table.cache_record(index, row);
                self.tables.insert(file_number, table);
                assert(self.tables@.dom() =~= old(self).tables@.dom());
                r
            },
        }
    }

    /// The schemas of the opened tables, in registry order.
    pub fn schema(&self) -> (r: Vec<Schema>)
        ensures
            ({
                let ns = opened_tables(
                    self.filelist.files@,
                    self.tables@,
                    self.filelist.files@.len() as int,
                );
                &&& r@.len() == ns.len()
                &&& forall|i: int|
                    0 <= i < ns.len() ==> #[trigger] schema_matches(
                        r@[i],
                        self.tables@[ns[i]].header.file_root_name@,
                        self.tables@[ns[i]].header.columns@,
                    )
            }),
    {
        let files = &self.filelist.files;
        let mut out: Vec<Schema> = Vec::new();
        let mut k: usize = 0;
        while k < files.len()
            invariant
                k <= files@.len(),
                files@ == self.filelist.files@,
                out@.len() == opened_tables(files@, self.tables@, k as int).len(),
                forall|i: int|
                    0 <= i < out@.len() ==> #[trigger] schema_matches(
                        out@[i],
                        self.tables@[opened_tables(files@, self.tables@, k as int)[i]].header.file_root_name@,
                        self.tables@[opened_tables(files@, self.tables@, k as int)[i]].header.columns@,
                    ),
            decreases files@.len() - k,
        {
            let n = files[k].file_number as u64;
            let ghost before = opened_tables(files@, self.tables@, k as int);
            match self.tables.get(&n) {
                Some(t) => {
                    out.push(t.schema());
                },
                None => {},
            }
            k = k + 1;
            assert forall|i: int| 0 <= i < out@.len() implies #[trigger] schema_matches(
                out@[i],
                self.tables@[opened_tables(files@, self.tables@, k as int)[i]].header.file_root_name@,
                self.tables@[opened_tables(files@, self.tables@, k as int)[i]].header.columns@,
            ) by {
                if i < before.len() {
                    assert(opened_tables(files@, self.tables@, k as int)[i] == before[i]);
                }
            }
        }
        out
    }

    /// Creating tables is not supported: the format is read-only here.
    pub fn create_table(&self) -> (r: Result<(), FerricError>)
        ensures
            r == Err::<(), FerricError>(FerricError::NotSupported),
    {
        Err(FerricError::NotSupported)
    }

    /// Altering tables is not supported: the format is read-only here.
    pub fn alter_table(&self) -> (r: Result<(), FerricError>)
        ensures
            r == Err::<(), FerricError>(FerricError::NotSupported),
    {
        Err(FerricError::NotSupported)
    }

    /// Dropping tables is not supported: the format is read-only here.
    pub fn drop_table(&self) -> (r: Result<(), FerricError>)
        ensures
            r == Err::<(), FerricError>(FerricError::NotSupported),
    {
        Err(FerricError::NotSupported)
    }

    /// The schema of the first opened table, in registry order, whose
    /// header gives its root name as `table_name` (without regard to case);
    /// `None` when no opened table goes by that name.
    pub fn fetch_schema(&self, table_name: &str) -> (r: Option<Schema>)
        ensures
            ({
                let ns = opened_tables(
                    self.filelist.files@,
                    self.tables@,
                    self.filelist.files@.len() as int,
                );
                match r {
                    Some(s) => exists|j: int|
                        0 <= j < ns.len() && table_named(self.tables@[#[trigger] ns[j]], table_name@)
                            && (forall|i: int|
                            0 <= i < j ==> !table_named(self.tables@[#[trigger] ns[i]], table_name@))
                            && schema_matches(
                            s,
                            self.tables@[ns[j]].header.file_root_name@,
                            self.tables@[ns[j]].header.columns@,
                        ),
                    None => forall|j: int|
                        0 <= j < ns.len() ==> !table_named(self.tables@[#[trigger] ns[j]], table_name@),
                }
            }),
    {
        let files = &self.filelist.files;
        let mut k: usize = 0;
        while k < files.len()
            invariant
                k <= files@.len(),
                files@ == self.filelist.files@,
                forall|i: int|
                    0 <= i < opened_tables(files@, self.tables@, k as int).len() ==> !table_named(
                        self.tables@[#[trigger] opened_tables(files@, self.tables@, k as int)[i]],
                        table_name@,
                    ),
            decreases files@.len() - k,
        {
            let n = files[k].file_number as u64;
            let ghost before = opened_tables(files@, self.tables@, k as int);
            match self.tables.get(&n) {
                Some(t) => {
                    if caseless_eq(t.header.file_root_name.as_str(), table_name) {
                        proof {
                            lemma_opened_prefix(files@, self.tables@, k as int + 1, files@.len() as int);
                            let ns = opened_tables(files@, self.tables@, files@.len() as int);
                            let j = before.len() as int;
                            assert(ns[j] == n);
                            assert forall|i: int| 0 <= i < j implies !table_named(
                                self.tables@[#[trigger] ns[i]],
                                table_name@,
                            ) by {
                                assert(ns[i] == before[i]);
                            }
                        }
                        return Some(t.schema());
                    }
                },
                None => {},
            }
            k = k + 1;
            assert forall|i: int|
                0 <= i < opened_tables(files@, self.tables@, k as int).len() implies !table_named(
                self.tables@[#[trigger] opened_tables(files@, self.tables@, k as int)[i]],
                table_name@,
            ) by {
                if i < before.len() {
                    assert(opened_tables(files@, self.tables@, k as int)[i] == before[i]);
                }
            }
        }
        None
    }
}

/// The opened tables among the first `k` entries come first, in the same
/// order, among the first `j`.
proof fn lemma_opened_prefix(
    files: Seq<FileListEntry>,
    tables: Map<u64, DataFlexTable>,
    k: int,
    j: int,
)
    requires
        0 <= k <= j,
    ensures
        opened_tables(files, tables, k).len() <= opened_tables(files, tables, j).len(),
        forall|i: int|
            0 <= i < opened_tables(files, tables, k).len() ==> #[trigger] opened_tables(
                files,
                tables,
                j,
            )[i] == opened_tables(files, tables, k)[i],
    decreases j - k,
{
    if k < j {
        lemma_opened_prefix(files, tables, k, j - 1);
    }
}

} // verus!

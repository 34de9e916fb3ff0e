use ferroflex::{
    Column, DataFlexDB, DataFlexTable, DataType, Date, FerricError, FieldSegment, FileList,
    FileListEntry, Header, Index, IndexCollation, IndexType, Row, TableKey, TagFile, Value,
    Version, CompressionType,
};

fn column_record(offset: u16, scale_and_index: u8, length: u8, kind: u8) -> [u8; 8] {
    let o = offset.to_le_bytes();
    [o[0], o[1], scale_and_index, length, kind, 0, 0, 0]
}

/// A 512-byte header with the given counts, columns and root name, and one
/// batch index over columns 0 and 1.
fn legacy_header(field_count: u8, record_count: u16, record_length: u16, columns: &[[u8; 8]]) -> Vec<u8> {
    let mut d = vec![0u8; 512];
    d[0x00..0x02].copy_from_slice(&record_count.to_le_bytes());
    d[0x08..0x0A].copy_from_slice(&record_count.to_le_bytes());
    d[0x0C..0x0E].copy_from_slice(&1000u16.to_le_bytes());
    d[0x4E..0x50].copy_from_slice(&record_length.to_le_bytes());
    d[0x59] = field_count;
    d[0x5C] = 1;
    d[0x64..0x6C].copy_from_slice(&[0x82, 0, 1, 0, 0, 0, 0, 1]);
    d[0xB4..0xBC].copy_from_slice(b"CUSTOMER");
    for (i, c) in columns.iter().enumerate() {
        let at = 0xC4 + 8 * i;
        d[at..at + 8].copy_from_slice(c);
    }
    d
}

fn customer_columns() -> Vec<[u8; 8]> {
    vec![
        column_record(1, 0x00, 8, 0),
        column_record(9, 0x10, 4, 1),
        column_record(13, 0x00, 3, 2),
        column_record(16, 0x00, 5, 5),
    ]
}

fn customer_table() -> DataFlexTable {
    let d = legacy_header(4, 3, 32, &customer_columns());
    let names = vec!["NAME".to_string(), "BALANCE".to_string(), "SINCE".to_string(), "NOTE".to_string()];
    let header = Header::from_bytes(&d, names, Some("data/customer.dat")).unwrap();
    DataFlexTable::from_header(header)
}

fn customer_record(name: &[u8; 8], note: &[u8; 3]) -> Vec<u8> {
    let mut r = vec![0u8; 32];
    r[0..8].copy_from_slice(name);
    r[8..12].copy_from_slice(&[0x10, 0x00, 0x12, 0x34]);
    r[12..15].copy_from_slice(&[0x83, 0x05, 0x00]);
    r[15..17].copy_from_slice(&[3, 0]);
    r[17..20].copy_from_slice(note);
    r
}

fn registry_slot(root: &[u8], alias: &[u8], description: &[u8]) -> Vec<u8> {
    let mut s = vec![0u8; 128];
    s[0..root.len()].copy_from_slice(root);
    s[41..41 + alias.len()].copy_from_slice(alias);
    s[73..73 + description.len()].copy_from_slice(description);
    s
}

fn registry() -> Vec<u8> {
    let mut r = registry_slot(b"FILELIST.CFG", b"", b"");
    r.extend(registry_slot(b"CUSTOMER", b"Customers", b"Customer list"));
    r.extend(vec![0u8; 128]);
    r.extend(registry_slot(b"ORDERS", b"", b"Orders"));
    r
}

#[test]
fn gets_segments() {
    let segs = FieldSegment::from_bytes(&[3, 1, 2]);
    assert_eq!(
        segs,
        vec![
            FieldSegment { column: 3, segment: 0 },
            FieldSegment { column: 1, segment: 1 },
            FieldSegment { column: 2, segment: 2 },
        ]
    );
    assert!(FieldSegment::from_bytes(&[]).is_empty());
}

#[test]
fn gets_indexes() {
    let ix = Index::from_bytes(&[0x82, 3, 1, 0, 0, 0, 0, 2]).unwrap();
    assert_eq!(ix.index_type, IndexType::Batch);
    assert_eq!(ix.field_count, 2);
    assert_eq!(ix.segments.len(), 6);
    assert_eq!(ix.segments[0], FieldSegment { column: 3, segment: 0 });
    assert_eq!(ix.segments[1], FieldSegment { column: 1, segment: 1 });
    assert_eq!(ix.collation, IndexCollation::Uppercase);

    let mut long = vec![0u8; 18];
    long[0] = 0x01;
    long[17] = 1;
    let ix = Index::from_bytes(&long).unwrap();
    assert_eq!(ix.index_type, IndexType::Online);
    assert_eq!(ix.segments.len(), 16);
    assert_eq!(ix.collation, IndexCollation::Ascending);

    assert_eq!(Index::from_bytes(&[0x80, 1, 0, 0, 0, 0, 0, 0]).unwrap_err(), FerricError::Format);
    assert_eq!(Index::from_bytes(&[0x01, 1]).unwrap_err(), FerricError::Internal);

    let mut table = vec![0u8; 80];
    table[8..16].copy_from_slice(&[0x01, 4, 0, 0, 0, 0, 0, 0]);
    table[24..32].copy_from_slice(&[0x83, 1, 2, 3, 0, 0, 0, 1]);
    let all = Index::table_from_bytes(&table).unwrap();
    assert_eq!(all.len(), 2);
    assert_eq!(all[0].field_count, 1);
    assert_eq!(all[1].field_count, 3);
    assert_eq!(all[1].index_type, IndexType::Batch);
}

#[test]
fn gets_columns() {
    let c = Column::from_bytes(&[0x09, 0x00, 0x32, 0x04, 0x01, 0x05, 0x02, 0x00], Some("PRICE")).unwrap();
    assert_eq!(c.name, "PRICE");
    assert_eq!(c.offset, 9);
    assert_eq!(c.main_index, Some(3));
    assert_eq!(c.decimal_points, 2);
    assert_eq!(c.length, 4);
    assert_eq!(c.data_type, DataType::Float);
    assert_eq!(c.related_file, Some(5));
    assert_eq!(c.related_field, Some(2));

    let c = Column::from_bytes(&[0x01, 0x01, 0x05, 0x0A, 0x00, 0x00, 0x00, 0x00], None).unwrap();
    assert_eq!(c.name, "");
    assert_eq!(c.offset, 257);
    assert_eq!(c.decimal_points, 0);
    assert_eq!(c.data_type, DataType::Ascii);
    assert_eq!(c.main_index, None);
    assert_eq!(c.related_file, None);
    assert_eq!(c.related_field, None);

    assert_eq!(Column::from_bytes(&[1, 2, 3], None).unwrap_err(), FerricError::Internal);

    let mut two = column_record(1, 0, 4, 1).to_vec();
    two.extend(column_record(5, 0, 2, 2));
    let named = Column::table_from_bytes(&two, Some(vec!["A".to_string()])).unwrap();
    assert_eq!(named.len(), 1);
    assert_eq!(named[0].name, "A");
    assert_eq!(named[0].data_type, DataType::Int);
    let unnamed = Column::table_from_bytes(&two, None).unwrap();
    assert_eq!(unnamed.len(), 2);
    assert_eq!(unnamed[1].offset, 5);
    assert_eq!(unnamed[1].data_type, DataType::Date);
}

#[test]
fn gets_tag_files() {
    let tags = TagFile::from_text("data/customer.tag".to_string(), "NAME\r\nBALANCE\r\n  SINCE \r\n");
    assert_eq!(tags.filepath, "data/customer.tag");
    assert_eq!(tags.tags, vec!["NAME", "BALANCE", "SINCE"]);
    assert!(TagFile::from_text(String::new(), " \t\r\n").tags.is_empty());

    let names = TagFile::generate_column_names(5, Some(vec!["A".to_string(), "B".to_string()])).unwrap();
    assert_eq!(names, vec!["A", "B", "Column3", "Column4", "Column5"]);
    let names = TagFile::generate_column_names(2, Some(vec!["A".to_string(), "B".to_string(), "C".to_string()])).unwrap();
    assert_eq!(names, vec!["A", "B", "C"]);
    let many: Vec<String> = (0..300).map(|i| format!("T{}", i)).collect();
    let names = TagFile::generate_column_names(0, Some(many)).unwrap();
    assert_eq!(names.len(), 255);
    assert_eq!(names[254], "T254");
    let names = TagFile::generate_column_names(12, None).unwrap();
    assert_eq!(names.len(), 12);
    assert_eq!(names[11], "Column12");
}

#[test]
fn gets_header() {
    let d = legacy_header(4, 3, 32, &customer_columns());
    let h = Header::from_bytes(&d, vec!["NAME".to_string()], Some("data/customer.dat")).unwrap();
    assert_eq!(h.version, Version::V23B);
    assert_eq!(h.field_count, 4);
    assert_eq!(h.record_count, 3);
    assert_eq!(h.record_length, 32);
    assert_eq!(h.max_record_count, 1000);
    assert_eq!(h.highest_record_count, 3);
    assert!(h.reuse_deleted_space);
    assert!(h.multiuser_reread_active);
    assert_eq!(h.file_root_name, "CUSTOMER");
    assert_eq!(h.filepath, "data/customer.dat");
    assert_eq!(h.records_per_block, 16);
    assert_eq!(h.fill_bytes_per_block, 0);
    assert_eq!(h.indexes.len(), 1);
    assert_eq!(h.indexes[0].field_count, 2);
    assert_eq!(h.columns.len(), 4);
    assert_eq!(h.columns[0].name, "NAME");
    assert_eq!(h.columns[1].name, "Column2");
    assert_eq!(h.columns[1].data_type, DataType::Int);
    assert_eq!(h.columns[3].length, 5);
    assert_eq!(h.compression_type, None);
}

#[test]
fn gets_current_header() {
    let mut d = vec![0u8; 3072];
    d[0x1C] = 0x1E;
    d[0x1D] = 0x1E;
    d[0x08..0x0A].copy_from_slice(&7u16.to_le_bytes());
    d[0x1F] = 1;
    d[0x41] = 1;
    d[0x98..0x9A].copy_from_slice(&16u16.to_le_bytes());
    d[0x9A..0x9C].copy_from_slice(&32u16.to_le_bytes());
    d[0xA4] = 1;
    d[0xA5] = 3;
    d[0xB0..0xC2].copy_from_slice(&[0x02, 0, 1, 0, 0, 0, 0, 0, 0, 0, 0, 0, 0, 0, 0, 0, 0, 2]);
    d[0x2D0..0x2D6].copy_from_slice(b"ORDERS");
    for (i, c) in [column_record(1, 0, 0, 0), column_record(9, 0, 0, 1), column_record(13, 0, 0, 2)]
        .iter()
        .enumerate()
    {
        d[0x2E0 + 8 * i..0x2E8 + 8 * i].copy_from_slice(c);
    }
    let h = Header::from_bytes(&d, vec![], None).unwrap();
    assert_eq!(h.version, Version::V30);
    assert_eq!(h.record_count, 7);
    assert_eq!(h.records_per_block, 16);
    assert_eq!(h.file_root_name, "ORDERS");
    assert_eq!(h.filepath, "");
    assert_eq!(h.indexes.len(), 1);
    assert_eq!(h.indexes[0].segments.len(), 16);
    assert_eq!(h.indexes[0].collation, IndexCollation::Uppercase);
    assert_eq!(h.compression_type, Some(CompressionType::Fast));
    assert_eq!(h.file_locking1, Some(true));
    assert_eq!(h.file_locking2, Some(false));
    assert_eq!(h.header_integrity_enabled, Some(true));
    assert_eq!(h.reuse_deleted_records, Some(true));
    let lengths: Vec<u64> = h.columns.iter().map(|c| c.length).collect();
    assert_eq!(lengths, vec![8, 4, 4]);
    assert_eq!(h.columns[2].name, "Column3");

    d[0xA5] = 1;
    let single = Header::from_bytes(&d, vec![], None).unwrap();
    assert_eq!(single.columns.len(), 1);
    assert_eq!(single.columns[0].length, 32);
}

#[test]
fn header_of_unknown_size_is_a_format_error() {
    for len in [0usize, 100, 511, 513, 1024, 3071, 3073] {
        let d = vec![0u8; len];
        assert_eq!(Header::from_bytes(&d, vec![], None).unwrap_err(), FerricError::Format);
    }
    let zero_length = legacy_header(1, 1, 0, &[column_record(1, 0, 4, 0)]);
    assert_eq!(Header::from_bytes(&zero_length, vec![], None).unwrap_err(), FerricError::Format);
}

#[test]
fn header_region_follows_marker() {
    let mut probe = vec![0u8; 3072];
    assert_eq!(Header::header_bytes_from(&probe).unwrap().len(), 512);
    probe[0x1C] = 0x1E;
    probe[0x1D] = 0x1E;
    assert_eq!(Header::header_bytes_from(&probe).unwrap().len(), 3072);
    probe[0x1D] = 0x01;
    assert_eq!(Header::header_bytes_from(&probe).unwrap_err(), FerricError::Format);
    assert_eq!(Header::header_bytes_from(&[0u8; 10]).unwrap_err(), FerricError::Format);
}

#[test]
fn synthetic_legacy_header_columns_fit() {
    let cols = [column_record(1, 0, 10, 0), column_record(11, 0, 4, 1), column_record(15, 0, 3, 2)];
    let d = legacy_header(3, 0, 32, &cols);
    let h = Header::from_bytes(&d, vec![], None).unwrap();
    assert_eq!(h.columns.len() as u64, h.field_count);
    let total: u64 = h.columns.iter().map(|c| c.length).sum();
    assert!(total <= h.record_length);
}

#[test]
fn mod_gets_rows() {
    let table = customer_table();
    assert_eq!(table.len(), 3);
    assert!(!table.is_empty());
    let row = table.record_from_bytes(&customer_record(b"ALICE   ", b"abc")).unwrap();
    assert_eq!(row.len(), 4);
    assert_eq!(
        row,
        Row {
            data: vec![
                Value::Str("ALICE".to_string()),
                Value::I64(1234),
                Value::Date(Date { year: 2000, month: 1, day: 1 }),
                Value::Str("abc".to_string()),
            ],
        }
    );
}

#[test]
fn table_gets_rows() {
    let mut table = customer_table();
    assert_eq!(table.record_index(0), Ok(0));
    assert_eq!(table.record_index(2), Ok(2));
    assert_eq!(table.record_index(3), Err(FerricError::NotFound));
    assert_eq!(table.record_offset(0), Ok(512));
    assert_eq!(table.record_offset(2), Ok(576));
    let decoded = table.record_from_bytes(&customer_record(b"BOB     ", b"xyz")).unwrap();
    let stored = table.cache_record(2, decoded).unwrap();
    assert_eq!(stored.get(0), Some(&Value::Str("BOB".to_string())));
    assert_eq!(table.cached_record(2), Some(stored));
    assert_eq!(table.cached_record(1), None);
}

#[test]
fn row_gets_rows() {
    let table = customer_table();
    let row = table.record_from_bytes(&customer_record(b"  EVE   ", b"q r")).unwrap();
    assert_eq!(row.get(0), Some(&Value::Str("EVE".to_string())));
    assert_eq!(row.get(3), Some(&Value::Str("q r".to_string())));
    assert_eq!(row.get(4), None);
    assert_eq!(row.copy(), row);
}

#[test]
fn records_count_back_from_the_end() {
    let table = customer_table();
    let n = table.len() as i64;
    assert_eq!(table.record_index(-1), table.record_index(n - 1));
    assert_eq!(table.record_index(-n), Ok(0));
    assert_eq!(table.record_index(-(n + 1)), Err(FerricError::NotFound));
    assert_eq!(table.record_index(i64::MIN), Err(FerricError::NotFound));
}

#[test]
fn bad_records_fail_whole() {
    let table = customer_table();
    let mut r = customer_record(b"ALICE   ", b"abc");
    r[15] = 4;
    assert_eq!(table.record_from_bytes(&r), Err(FerricError::TextDecoding));
    assert_eq!(table.record_from_bytes(&r[0..10]), Err(FerricError::Internal));
}

#[test]
fn second_store_keeps_first_row() {
    let mut table = customer_table();
    let bytes = customer_record(b"ALICE   ", b"abc");
    let a = table.record_from_bytes(&bytes).unwrap();
    let b = table.record_from_bytes(&bytes).unwrap();
    assert_eq!(a, b);
    let first = table.cache_record(1, a).unwrap();
    let other = table.record_from_bytes(&customer_record(b"MALLORY ", b"zzz")).unwrap();
    let second = table.cache_record(1, other).unwrap();
    assert_eq!(first, second);
    assert_eq!(table.cache_record(9, b).unwrap_err(), FerricError::NotFound);
    assert_eq!(
        table.cache_record(0, Row { data: vec![] }).unwrap_err(),
        FerricError::Internal
    );
}

#[test]
fn unsupported_layouts_have_no_offsets() {
    let d = legacy_header(1, 3, 20, &[column_record(1, 0, 4, 0)]);
    let table = DataFlexTable::from_header(Header::from_bytes(&d, vec![], None).unwrap());
    assert_eq!(table.header.fill_bytes_per_block, 12);
    assert_eq!(table.record_offset(0), Err(FerricError::NotSupported));
}

#[test]
fn gets_file_lists() {
    let fl = FileList::from_bytes(&registry()).unwrap();
    assert_eq!(fl.len(), 3);
    assert!(!fl.is_empty());
    let numbers: Vec<usize> = fl.iter().map(|e| e.file_number).collect();
    assert_eq!(numbers, vec![0, 1, 3]);
    let customer = fl.get(&TableKey::Name("customers".to_string())).unwrap();
    assert_eq!(customer.root_name, "CUSTOMER");
    assert_eq!(customer.dataflex_name, Some("Customers".to_string()));
    assert_eq!(customer.description, Some("Customer list".to_string()));
    assert_eq!(customer.table_file_name(), "CUSTOMER.dat");
    assert_eq!(fl.get(&TableKey::Index(3)).unwrap().root_name, "ORDERS");
    // negative numbers count back from the number of entries
    assert_eq!(fl.get(&TableKey::Index(-2)).unwrap().root_name, "CUSTOMER");
    assert!(fl.get(&TableKey::Index(-1)).is_none());
    assert!(fl.get(&TableKey::Index(2)).is_none());
    assert!(fl.get(&TableKey::Index(-5)).is_none());
    assert!(fl.contains(&TableKey::Name("Orders".to_string())));
    assert!(!fl.contains(&TableKey::Name("Invoices".to_string())));

    let entry = FileListEntry::from_bytes(&registry_slot(b"ORDERS", b"", b"Orders"), Some(4usize)).unwrap();
    assert_eq!(entry.file_number, 4);
    assert_eq!(
        FileListEntry::from_bytes(&registry_slot(b"FileList.cfg", b"x", b""), Some(4usize)).unwrap_err(),
        FerricError::Format
    );
    assert_eq!(
        FileListEntry::from_bytes(&registry_slot(b"ORDERS", b"", b""), Some(4usize)).unwrap_err(),
        FerricError::NotFound
    );
}

#[test]
fn foreign_first_slot_is_left_out() {
    let mut r = registry_slot(b"NOTFILELIST", b"x", b"y");
    r.extend(registry_slot(b"CUSTOMER", b"Customers", b""));
    let fl = FileList::from_bytes(&r).unwrap();
    assert_eq!(fl.len(), 1);
    assert!(fl.iter().all(|e| e.file_number != 0));
}

#[test]
fn gets_dbs() {
    let fl = FileList::from_bytes(&registry()).unwrap();
    let mut db = DataFlexDB::new("data".to_string(), fl);
    assert_eq!(db.len(), 3);
    assert!(DataFlexDB::is_registry_name("FileList.CFG"));
    assert!(!DataFlexDB::is_registry_name("customer.dat"));
    assert!(db.get(&TableKey::Name("customer".to_string())).is_none());
    db.cache_table(1, customer_table());
    assert!(db.contains(&TableKey::Name("CUSTOMERS".to_string())));
    assert!(db.get(&TableKey::Index(1)).is_some());
    assert!(db.get(&TableKey::Name("orders".to_string())).is_none());
    let schema = db.fetch_schema("customer").unwrap();
    assert_eq!(schema.table_name, "CUSTOMER");
    assert_eq!(schema.column_defs.len(), 4);
    assert_eq!(schema.column_defs[1].name, "BALANCE");
    assert_eq!(schema.column_defs[1].data_type, DataType::Int);
    assert!(db.fetch_schema("orders").is_none());

    let row = db.get(&TableKey::Index(1)).unwrap().record_from_bytes(&customer_record(b"ALICE   ", b"abc")).unwrap();
    let stored = db.cache_record(1, 0, row).unwrap();
    assert_eq!(stored.get(1), Some(&Value::I64(1234)));
    assert_eq!(db.get(&TableKey::Index(1)).unwrap().cached_record(0), Some(stored));
    let again = Row { data: vec![] };
    assert_eq!(db.cache_record(3, 0, again).unwrap_err(), FerricError::NotFound);
}

#[test]
fn columns_overrunning_the_record_are_a_format_error() {
    let cols = [column_record(1, 0, 20, 0), column_record(21, 0, 20, 0)];
    let d = legacy_header(2, 1, 32, &cols);
    assert_eq!(Header::from_bytes(&d, vec![], None).unwrap_err(), FerricError::Format);
    let fits = [column_record(1, 0, 16, 0), column_record(17, 0, 16, 0)];
    let d = legacy_header(2, 1, 32, &fits);
    assert_eq!(Header::from_bytes(&d, vec![], None).unwrap().columns.len(), 2);

    let mut c = vec![0u8; 3072];
    c[0x1C] = 0x1E;
    c[0x1D] = 0x1E;
    c[0x9A..0x9C].copy_from_slice(&8u16.to_le_bytes());
    c[0xA5] = 2;
    c[0x2E0..0x2E8].copy_from_slice(&column_record(1, 0, 0, 0));
    c[0x2E8..0x2F0].copy_from_slice(&column_record(7, 0, 0, 0));
    // reconciled lengths 6 and 6 overrun an 8-byte record
    assert_eq!(Header::from_bytes(&c, vec![], None).unwrap_err(), FerricError::Format);
}

#[test]
fn schemas_are_found_by_header_name() {
    let fl = FileList::from_bytes(&registry()).unwrap();
    let mut db = DataFlexDB::new("data".to_string(), fl);
    db.cache_table(1, customer_table());
    // the alias finds the registry entry, but the schema goes by the header's root name
    assert!(db.get(&TableKey::Name("Customers".to_string())).is_some());
    assert!(db.fetch_schema("Customers").is_none());
    assert_eq!(db.fetch_schema("Customer").unwrap().table_name, "CUSTOMER");
    assert_eq!(db.schema().len(), 1);
    assert_eq!(db.create_table(), Err(FerricError::NotSupported));
}

use paimon_ftindex_core::config::{FullTextIndexConfig, FullTextIndexMetadata};
use paimon_ftindex_core::error::FtIndexError;
use paimon_ftindex_core::reader::{validate_tantivy_version, FullTextIndexReader};
use paimon_ftindex_core::schema::{build_schema, text_field_map};
use paimon_ftindex_core::storage::{
    collect_index_files, decode_prefix, encode_prefix, file_range, place_files, ArchiveFileEntry,
    IndexFile, IndexHeader, FORMAT_VERSION, PREFIX_LENGTH,
};
use paimon_ftindex_core::tokenizer::TokenizerKind;
use paimon_ftindex_core::writer::{validate_indexed_field, FullTextDocument, FullTextIndexWriter};
use tantivy::schema::{Field, FieldType, IndexRecordOption, Value};

fn storage(message: &str) -> FtIndexError {
    FtIndexError::InvalidStorage(message.to_string())
}

fn two_fields() -> FullTextIndexConfig {
    let mut config = FullTextIndexConfig::new();
    config.text_fields = vec!["title".to_string(), "body".to_string()];
    config
}

fn fields(pairs: &[(&str, &str)]) -> Vec<(String, String)> {
    pairs.iter().map(|(n, t)| (n.to_string(), t.to_string())).collect()
}

fn refusal<T>(result: Result<T, FtIndexError>) -> FtIndexError {
    match result {
        Ok(_) => panic!("this should be refused"),
        Err(e) => e,
    }
}

#[test]
fn schema_has_row_id_first() {
    let mut config = two_fields();
    config.tokenizer.tokenizer = TokenizerKind::Ngram;
    config.tokenizer.with_position = false;
    let schema = build_schema(&config);
    let names: Vec<String> = schema.fields().map(|(_, e)| e.name().to_string()).collect();
    assert_eq!(names, vec!["row_id", "title", "body"]);
    assert!(schema.get_field_entry(Field::from_field_id(0)).is_fast());
    assert!(schema.get_field_entry(Field::from_field_id(0)).is_indexed());
    assert!(schema.get_field_entry(Field::from_field_id(0)).is_stored());
    match schema.get_field_entry(Field::from_field_id(2)).field_type() {
        FieldType::Str(options) => {
            let indexing = options.get_indexing_options().unwrap();
            assert_eq!(indexing.tokenizer(), "paimon_ngram");
            assert_eq!(indexing.index_option(), IndexRecordOption::WithFreqs);
        }
        _ => panic!("a text field holds text"),
    }
    let map = text_field_map(&schema, &config).unwrap();
    assert_eq!(map, vec![("title".to_string(), 1), ("body".to_string(), 2)]);
    let other = FullTextIndexConfig::new();
    assert_eq!(refusal(text_field_map(&schema, &other)), storage("missing text field 'text'"));
}

#[test]
fn positions_are_recorded_by_default() {
    let schema = build_schema(&FullTextIndexConfig::new());
    match schema.get_field_entry(Field::from_field_id(1)).field_type() {
        FieldType::Str(options) => {
            let indexing = options.get_indexing_options().unwrap();
            assert_eq!(indexing.index_option(), IndexRecordOption::WithFreqsAndPositions);
        }
        _ => panic!("a text field holds text"),
    }
}

#[test]
fn document_holds_row_id_and_texts() {
    let writer = FullTextIndexWriter::new(two_fields()).unwrap();
    let source = FullTextDocument {
        row_id: i64::MAX,
        fields: fields(&[("body", "one"), ("title", "two"), ("body", "")]),
    };
    let document = writer.add_document_fields(source.row_id, &source.fields).unwrap();
    let values: Vec<(u32, Option<u64>, Option<String>)> = document
        .field_values()
        .map(|(f, v)| (f.field_id(), v.as_u64(), v.as_str().map(|s| s.to_string())))
        .collect();
    assert_eq!(
        values,
        vec![
            (0, Some(i64::MAX as u64), None),
            (2, None, Some("one".to_string())),
            (1, None, Some("two".to_string())),
            (2, None, Some("".to_string())),
        ]
    );
    assert_eq!(writer.document_count, 0);
}

#[test]
fn default_field_is_the_first() {
    let writer = FullTextIndexWriter::new(two_fields()).unwrap();
    let document = writer.add_document(7, "hello").unwrap();
    let first = document.get_first(Field::from_field_id(1)).unwrap();
    assert_eq!(first.as_str(), Some("hello"));
}

#[test]
fn documents_are_refused_in_order() {
    let mut writer = FullTextIndexWriter::new(two_fields()).unwrap();
    let bad = fields(&[("nope", "x")]);
    assert_eq!(
        refusal(writer.add_document_fields(-9223372036854775808, &bad)),
        storage("row id must be non-negative, got -9223372036854775808")
    );
    assert_eq!(
        refusal(writer.add_document_fields(1, &bad)),
        storage("document field 'nope' is not configured for this index")
    );
    assert_eq!(
        refusal(writer.add_document_fields(1, &fields(&[("title", "x"), (" \t", "y"), ("z", "")]))),
        storage("document field name must not be empty")
    );
    assert_eq!(
        refusal(writer.add_document_fields(1, &Vec::new())),
        storage("document must contain at least one text field")
    );
    writer.document_count = u64::MAX;
    assert_eq!(
        refusal(writer.add_document_fields(1, &bad)),
        storage("full-text document count overflow")
    );
    assert!(writer.write().is_ok());
    assert_eq!(
        refusal(writer.add_document_fields(1, &bad)),
        storage("full-text index writer is already finalized")
    );
    assert_eq!(
        refusal(writer.add_document(-1, "x")),
        storage("full-text index writer is already finalized")
    );
}

#[test]
fn ended_writer_tests_no_row_id() {
    let mut writer = FullTextIndexWriter::new(FullTextIndexConfig::new()).unwrap();
    assert_eq!(
        refusal(writer.add_document_fields(-1, &fields(&[("text", "a")]))),
        storage("row id must be non-negative, got -1")
    );
    assert!(writer.write().is_ok());
    assert_eq!(
        refusal(writer.add_document_fields(-1, &fields(&[("text", "a")]))),
        storage("full-text index writer is already finalized")
    );
    assert_eq!(
        refusal(writer.add_document_fields(i64::MIN, &Vec::new())),
        storage("full-text index writer is already finalized")
    );
}

#[test]
fn a_document_is_cloned() {
    let document = FullTextDocument { row_id: 7, fields: fields(&[("title", "a"), ("text", "")]) };
    assert_eq!(document.clone(), document);
}

#[test]
fn a_schema_numbers_fields_past_sixteen_bits() {
    let mut config = FullTextIndexConfig::new();
    config.text_fields = (0..66000).map(|n| format!("f{n}")).collect();
    let schema = build_schema(&config);
    assert_eq!(schema.get_field("f65999").unwrap().field_id(), 66000);
    let writer = FullTextIndexWriter::new(config).unwrap();
    assert_eq!(writer.text_fields[65999], ("f65999".to_string(), 66000));
    assert!(writer.add_document(1, "x").is_ok());
    let document = writer.add_document_fields(1, &fields(&[("f65534", "last")])).unwrap();
    let field = Field::from_field_id(65535);
    assert_eq!(document.get_first(field).unwrap().as_str(), Some("last"));
}

#[test]
fn writer_ends_once() {
    let mut writer = FullTextIndexWriter::new(FullTextIndexConfig::new()).unwrap();
    assert!(writer.add_document(0, "zero").is_ok());
    writer.document_added();
    assert_eq!(writer.document_count, 1);
    assert!(writer.write().is_ok());
    assert_eq!(refusal(writer.write()), storage("full-text index writer is already finalized"));
    assert_eq!(
        refusal(writer.add_document(0, "zero")),
        storage("full-text index writer is already finalized")
    );
    assert_eq!(writer.document_count, 1);
}

#[test]
fn writer_refuses_its_configuration() {
    let mut config = FullTextIndexConfig::new();
    config.tokenizer.stem = true;
    config.tokenizer.language = "none".to_string();
    assert_eq!(
        refusal(FullTextIndexWriter::new(config)),
        FtIndexError::InvalidOption {
            key: "language".to_string(),
            message: "unsupported tokenizer language 'none'".to_string(),
        }
    );
    let mut config = FullTextIndexConfig::new();
    config.tokenizer.ngram_min_gram = 0;
    assert!(FullTextIndexWriter::new(config).is_err());
}

#[test]
fn fields_are_checked_by_name() {
    let config = two_fields();
    assert_eq!(validate_indexed_field(&config, "body"), Ok(()));
    assert_eq!(
        validate_indexed_field(&config, " body"),
        Err(storage("document field ' body' is not configured for this index"))
    );
    assert_eq!(
        validate_indexed_field(&config, ""),
        Err(storage("document field name must not be empty"))
    );
}

fn file(name: &str, length: u64) -> IndexFile {
    IndexFile { name: name.to_string(), length }
}

#[test]
fn files_are_placed_one_after_the_other() {
    let entries = place_files(&vec![file("a", 3), file("b", 0), file("c", 5)]).unwrap();
    let places: Vec<(String, u64, u64)> =
        entries.iter().map(|e| (e.name.clone(), e.offset, e.length)).collect();
    assert_eq!(
        places,
        vec![("a".to_string(), 0, 3), ("b".to_string(), 3, 0), ("c".to_string(), 3, 5)]
    );
    assert_eq!(
        place_files(&vec![file("a", u64::MAX), file("b", 1)]),
        Err(storage("full-text archive size overflow"))
    );
    assert!(place_files(&vec![file("a", u64::MAX)]).is_ok());
    let entry = ArchiveFileEntry { name: "c".to_string(), offset: 3, length: 5 };
    assert_eq!(file_range(100, &entry), Some((103, 108)));
    assert_eq!(file_range(u64::MAX - 7, &entry), None);
}

#[test]
fn archive_reads_back_what_was_written() {
    let header = b"{}".to_vec();
    let contents: Vec<&[u8]> = vec![b"abc", b"", b"defgh"];
    let files = vec![file("a", 3), file("b", 0), file("c", 5)];
    let entries = place_files(&files).unwrap();
    let mut bytes = encode_prefix(header.len() as u32);
    bytes.extend_from_slice(&header);
    for content in &contents {
        bytes.extend_from_slice(content);
    }
    let length = decode_prefix(&bytes).unwrap() as u64;
    assert_eq!(length, 2);
    for (entry, content) in entries.iter().zip(&contents) {
        let (start, end) = file_range(PREFIX_LENGTH + length, entry).unwrap();
        assert_eq!(&bytes[start as usize..end as usize], *content);
    }
}

#[test]
fn prefix_is_magic_version_and_length() {
    let prefix = encode_prefix(0x0403_0201);
    assert_eq!(&prefix[..8], b"PFTIDX01");
    assert_eq!(&prefix[8..], &[1, 0, 0, 0, 1, 2, 3, 4]);
    assert_eq!(decode_prefix(&prefix), Ok(0x0403_0201));
    assert_eq!(FORMAT_VERSION, 1);
    assert_eq!(decode_prefix(&prefix[..15]), Err(storage("index file is too short")));
    let mut other = prefix.clone();
    other[7] = 0x32;
    assert_eq!(decode_prefix(&other), Err(storage("index file has no full-text index magic")));
    let mut later = prefix.clone();
    later[8] = 2;
    assert_eq!(decode_prefix(&later), Err(storage("unsupported index format version 2")));
}

#[test]
fn index_files_are_in_order_without_locks() {
    let some = |name: &str| Some(name.to_string());
    let names = vec![
        some("meta.json"),
        some(".tantivy-writer.lock"),
        some("b.term"),
        some("b"),
        some("ä"),
        some("B"),
        some("a.lock.idx"),
    ];
    assert_eq!(
        collect_index_files(&names).unwrap(),
        vec!["B", "a.lock.idx", "b", "b.term", "meta.json", "ä"]
    );
    let names = vec![some("x.lock"), None];
    assert_eq!(collect_index_files(&names), Err(storage("non-utf8 file name")));
}

#[test]
fn header_describes_the_index() {
    let mut writer = FullTextIndexWriter::new(two_fields()).unwrap();
    writer.document_added();
    writer.document_added();
    let header = writer.archive_header(&vec![file("a", 3)]).unwrap();
    assert_eq!(header.metadata.config, two_fields());
    assert_eq!(header.metadata.document_count, 2);
    assert_eq!(header.metadata.tantivy_version, tantivy::version().to_string());
    assert_eq!(header.metadata.tantivy_version, "tantivy v0.26.2, index_format v7");
    assert_eq!(header.files.len(), 1);
    assert_eq!(
        writer.archive_header(&vec![file("a", 1), file("b", u64::MAX)]),
        Err(storage("full-text archive size overflow"))
    );
}

fn header_with(version: &str, language: &str) -> IndexHeader {
    let mut config = two_fields();
    config.tokenizer.stem = true;
    config.tokenizer.language = language.to_string();
    IndexHeader {
        metadata: FullTextIndexMetadata {
            config,
            document_count: 0,
            tantivy_version: version.to_string(),
        },
        files: Vec::new(),
    }
}

#[test]
fn reader_refuses_another_version() {
    let schema = build_schema(&two_fields());
    let current = tantivy::version().to_string();
    let message = format!("unsupported Tantivy index version 0.26.1, runtime uses {current}");
    let old = header_with("0.26.1", "none");
    assert_eq!(validate_tantivy_version(&old.metadata), Err(storage(&message)));
    assert_eq!(refusal(FullTextIndexReader::open(old, schema.clone())), storage(&message));
    let unknown = header_with(&current, "none");
    assert!(matches!(
        refusal(FullTextIndexReader::open(unknown, schema.clone())),
        FtIndexError::InvalidOption { .. }
    ));
    let reader = FullTextIndexReader::open(header_with(&current, "en"), schema).unwrap();
    assert_eq!(reader.metadata().document_count, 0);
    assert_eq!(reader.index().schema.num_fields(), 3);
}

use paimon_ftindex_core::boundary::{
    check_delivery, check_flush, check_read, check_write, const_slice, cstr_to_string, ffi_status,
    fields_from_raw, options_from_raw, panic_message, query_from_raw, require_pointer, set_error,
    CallOutcome, CallReport, RawText,
};
use paimon_ftindex_core::metrics::{FullTextReadMetrics, PaimonFtindexReadMetrics};
use paimon_ftindex_core::text::{
    contains_text, decimal_text, list_words, parse_unsigned, replace_char, same_text, split_text,
    strip_prefix,
};

fn text(value: &str) -> RawText {
    RawText::Text(value.to_string())
}

fn err<T>(message: &str) -> Result<T, String> {
    Err(message.to_string())
}

#[test]
fn pointers_are_checked_by_name() {
    assert_eq!(require_pointer(true, "writer"), err("writer is null"));
    assert_eq!(require_pointer(false, "writer"), Ok(()));
    assert_eq!(const_slice(true, 0, "roaring_filter"), Ok(()));
    assert_eq!(const_slice(true, 1, "roaring_filter"), err("roaring_filter is null"));
    assert_eq!(const_slice(false, 1, "roaring_filter"), Ok(()));
    assert_eq!(cstr_to_string(&RawText::Null, "text"), err("text is null"));
    assert_eq!(
        cstr_to_string(&RawText::NotUtf8("bad byte".to_string()), "text"),
        err("text is not valid UTF-8: bad byte")
    );
    assert_eq!(cstr_to_string(&text("ä"), "text"), Ok("ä".to_string()));
}

#[test]
fn options_and_fields_are_read_in_order() {
    let raw = vec![(text("a"), text("1")), (text("b"), text("2"))];
    let read = vec![("a".to_string(), "1".to_string()), ("b".to_string(), "2".to_string())];
    assert_eq!(options_from_raw(2, false, false, &raw), Ok(read.clone()));
    assert_eq!(fields_from_raw(2, false, false, &raw), Ok(read));
    assert_eq!(options_from_raw(0, true, true, &Vec::new()), Ok(Vec::new()));
    assert_eq!(
        fields_from_raw(0, true, true, &Vec::new()),
        err("document fields must not be empty")
    );
    assert_eq!(options_from_raw(1, true, true, &Vec::new()), err("keys is null"));
    assert_eq!(options_from_raw(1, false, true, &Vec::new()), err("values is null"));
    assert_eq!(fields_from_raw(1, true, true, &Vec::new()), err("field_names is null"));
    assert_eq!(fields_from_raw(1, false, true, &Vec::new()), err("texts is null"));
    let broken = vec![(text("a"), text("1")), (text("b"), RawText::Null), (RawText::Null, text(""))];
    assert_eq!(options_from_raw(3, false, false, &broken), err("option value is null"));
    assert_eq!(fields_from_raw(3, false, false, &broken), err("field text is null"));
    let unnamed = vec![(RawText::Null, RawText::Null)];
    assert_eq!(options_from_raw(1, false, false, &unnamed), err("option key is null"));
    assert_eq!(fields_from_raw(1, false, false, &unnamed), err("field name is null"));
}

#[test]
fn results_need_a_place() {
    assert_eq!(query_from_raw(true, &RawText::Null), err("result_len is null"));
    assert_eq!(query_from_raw(false, &RawText::Null), err("query is null"));
    assert_eq!(query_from_raw(false, &text("{}")), Ok("{}".to_string()));
    assert_eq!(
        check_delivery(3, 2, true, true),
        err("result capacity 2 is smaller than result length 3")
    );
    assert_eq!(check_delivery(2, 2, true, true), err("row_ids is null"));
    assert_eq!(check_delivery(2, 2, false, true), err("scores is null"));
    assert_eq!(check_delivery(2, 2, false, false), Ok(()));
    assert_eq!(check_delivery(0, 0, true, true), Ok(()));
}

#[test]
fn outcomes_are_reported() {
    assert_eq!(ffi_status(&CallOutcome::Done), CallReport { status: 0, last_error: None });
    assert_eq!(
        ffi_status(&CallOutcome::Failed("a\0b".to_string())),
        CallReport { status: -1, last_error: Some("a\\0b".to_string()) }
    );
    assert_eq!(
        ffi_status(&CallOutcome::Panicked(Some("oh\0".to_string()))),
        CallReport { status: -1, last_error: Some("native panic: oh\\0".to_string()) }
    );
    assert_eq!(panic_message(&None), "native panic: unknown");
    assert_eq!(set_error("\0\0x"), "\\0\\0x");
    assert_eq!(set_error("plain"), "plain");
}

#[test]
fn callbacks_are_checked() {
    assert_eq!(check_read(0, 5, 6), Ok(()));
    assert_eq!(
        check_read(-1, 18446744073709551615, 0),
        err("pread callback failed at offset 18446744073709551615 length 0")
    );
    assert_eq!(check_write(0), Ok(()));
    assert_eq!(check_write(1), err("write callback failed"));
    assert_eq!(check_flush(None), Ok(()));
    assert_eq!(check_flush(Some(0)), Ok(()));
    assert_eq!(check_flush(Some(-1)), err("flush callback failed"));
}

#[test]
fn reads_are_counted() {
    let mut metrics = FullTextReadMetrics::default();
    metrics.record_pread(&vec![3, 4]);
    metrics.record_pread(&Vec::new());
    assert_eq!((metrics.pread_calls, metrics.pread_ranges, metrics.pread_bytes), (2, 2, 7));
    metrics.pread_bytes = u64::MAX;
    metrics.cache_hits = 1;
    metrics.cache_misses = 2;
    metrics.cache_evictions = 3;
    metrics.cached_blocks = 4;
    metrics.record_pread(&vec![2]);
    assert_eq!(metrics.pread_bytes, 1);
    let handed = PaimonFtindexReadMetrics::from(metrics);
    assert_eq!(
        handed,
        PaimonFtindexReadMetrics {
            pread_calls: 3,
            pread_ranges: 3,
            pread_bytes: 1,
            cache_hits: 1,
            cache_misses: 2,
            cache_evictions: 3,
            cached_blocks: 4,
        }
    );
    assert_eq!(PaimonFtindexReadMetrics::default().pread_calls, 0);
}

#[test]
fn texts_are_compared_and_cut() {
    assert!(same_text("ä", "ä") && !same_text("ä", "a") && !same_text("", "a"));
    assert!(contains_text(&vec!["a".to_string(), "b".to_string()], "b"));
    assert!(!contains_text(&Vec::new(), ""));
    assert_eq!(strip_prefix("ab", "ab"), Some(""));
    assert_eq!(strip_prefix("a", "ab"), None);
    assert_eq!(strip_prefix("äx", "ä"), Some("x"));
    assert_eq!(replace_char("a;b;", ';', "--"), "a--b--");
    assert_eq!(split_text("a;;b", ';'), vec!["a", "", "b"]);
    assert_eq!(split_text("", ';'), vec![""]);
    assert_eq!(list_words(" a ;; b", ';'), vec!["a", "b"]);
    assert!(list_words("", ';').is_empty());
}

#[test]
fn white_space_is_that_of_unicode() {
    let spaces: Vec<char> =
        (0..=0x10ffffu32).filter_map(char::from_u32).filter(|c| c.is_whitespace()).collect();
    assert_eq!(spaces.len(), 25);
    let all: String = spaces.into_iter().collect();
    assert!(list_words(&all, ';').is_empty());
    assert_eq!(list_words("\u{200b}", ';'), vec!["\u{200b}"]);
}

#[test]
fn decimal_numbers_read_back() {
    for n in [0, 9, 10, 105, 18446744073709551615u64] {
        assert_eq!(decimal_text(n), format!("{n}"));
        assert_eq!(parse_unsigned(&decimal_text(n)), Some(n as usize));
    }
    assert_eq!(parse_unsigned("٣"), None);
    assert_eq!(parse_unsigned("1 "), None);
}

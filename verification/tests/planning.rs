use paimon_ftindex_core::analyzer::build_text_analyzer;
use paimon_ftindex_core::config::FullTextIndexConfig;
use paimon_ftindex_core::error::FtIndexError;
use paimon_ftindex_core::plan_model::FieldMatchOptions;
use paimon_ftindex_core::planner::{
    auto_fuzziness, build_field_match_query, build_query, build_token_query, build_tokens_query,
    can_build_query, checked_phrase, phrase_query_text, resolve_match_fields, resolve_text_field,
    validate_match_options, validate_multi_match_options,
};
use paimon_ftindex_core::query::{BooleanOccur, MatchOperator, QueryPlan, QuerySpec};
use paimon_ftindex_core::reader::{
    checked_filter, collect_results, decode_roaring_filter, FullTextIndexReader,
};
use paimon_ftindex_core::schema::build_schema;
use paimon_ftindex_core::score::{
    demotion_factor, is_effective, validate_boost, validate_negative_boost, Score,
};
use paimon_ftindex_core::writer::{FullTextIndexWriter, OpenIndex};
use roaring::RoaringTreemap;

fn bits(value: f32) -> Score {
    Score { bits: value.to_bits() }
}

fn query_error(message: &str) -> FtIndexError {
    FtIndexError::InvalidQuery(message.to_string())
}

fn open(config: &FullTextIndexConfig) -> OpenIndex {
    OpenIndex {
        schema: build_schema(config),
        analyzer: build_text_analyzer(&config.tokenizer).unwrap(),
    }
}

fn two_fields() -> FullTextIndexConfig {
    let mut config = FullTextIndexConfig::new();
    config.text_fields = vec!["title".to_string(), "body".to_string()];
    config
}

fn options() -> FieldMatchOptions {
    FieldMatchOptions {
        operator: MatchOperator::Or,
        boost: bits(1.0),
        fuzziness: Some(0),
        max_expansions: 50,
        prefix_length: 0,
    }
}

fn match_in(column: Option<&str>, terms: &str, boost: f32) -> QuerySpec {
    QuerySpec::Match {
        column: column.map(|c| c.to_string()),
        terms: terms.to_string(),
        operator: MatchOperator::And,
        boost: bits(boost),
        fuzziness: Some(0),
        max_expansions: 50,
        prefix_length: 0,
    }
}

fn boolean(
    should: Vec<QuerySpec>,
    must: Vec<QuerySpec>,
    must_not: Vec<QuerySpec>,
    queries: Vec<(BooleanOccur, QuerySpec)>,
) -> QuerySpec {
    QuerySpec::Boolean { should, must, must_not, queries }
}

fn planned(config: &FullTextIndexConfig, query: &QuerySpec) -> String {
    format!("{:?}", build_query(&open(config), config, query).unwrap())
}

fn refused(config: &FullTextIndexConfig, query: &QuerySpec) -> FtIndexError {
    build_query(&open(config), config, query).unwrap_err()
}

#[test]
fn match_makes_terms() {
    let config = FullTextIndexConfig::new();
    assert_eq!(
        planned(&config, &match_in(Some(" text "), "Hello", 1.0)),
        "Term { field: 1, token: \"hello\" }"
    );
    assert_eq!(planned(&config, &match_in(None, " , ", 1.0)), "Empty");
    assert_eq!(
        planned(&config, &match_in(Some(""), "Hello World", 1.0)),
        "Boolean([(Must, Term { field: 1, token: \"hello\" }), \
         (Must, Term { field: 1, token: \"world\" })])"
    );
}

#[test]
fn match_without_column_looks_everywhere() {
    assert_eq!(
        planned(&two_fields(), &match_in(None, "x", 1.0)),
        "Boolean([(Should, Term { field: 1, token: \"x\" }), \
         (Should, Term { field: 2, token: \"x\" })])"
    );
}

#[test]
fn boost_is_applied_unless_one() {
    let config = FullTextIndexConfig::new();
    let two = bits(2.0).bits;
    assert_eq!(
        planned(&config, &match_in(None, "x", 2.0)),
        format!(
            "Boosted {{ query: Term {{ field: 1, token: \"x\" }}, boost: Score {{ bits: {two} }} }}"
        )
    );
    assert_eq!(
        planned(&config, &match_in(None, "x", 1.0 + f32::EPSILON)),
        "Term { field: 1, token: \"x\" }"
    );
}

#[test]
fn boosts_are_judged_as_floats() {
    for value in [f32::MIN_POSITIVE, 1.0e-45, 0.5, 1.0, f32::MAX] {
        assert_eq!(validate_boost(bits(value)), Ok(()));
    }
    for value in [0.0, -0.0, -1.0, f32::INFINITY, f32::NEG_INFINITY, f32::NAN, -f32::NAN] {
        let refused = Err(FtIndexError::InvalidBoost(value.to_bits()));
        assert_eq!(validate_boost(bits(value)), refused);
    }
    for value in [0.0, -0.0, 1.0e-45, 0.5, 1.0] {
        assert_eq!(validate_negative_boost(bits(value)), Ok(()));
    }
    for value in [-1.0e-45, 1.0 + f32::EPSILON, f32::INFINITY, f32::NAN, -1.0] {
        let refused = Err(FtIndexError::InvalidNegativeBoost(value.to_bits()));
        assert_eq!(validate_negative_boost(bits(value)), refused);
    }
}

#[test]
fn effective_boosts_agree_with_float_arithmetic() {
    let one = 1.0f32.to_bits();
    let mut samples = vec![1, 0x0080_0000, 0x3f00_0000, 0x4000_0000, 0x7f7f_ffff];
    for step in 0..8 {
        samples.push(one - step);
        samples.push(one + step);
    }
    for sample in samples {
        let expected = (f32::from_bits(sample) - 1.0).abs() > f32::EPSILON;
        assert_eq!(is_effective(Score { bits: sample }), expected);
    }
}

#[test]
fn demotion_is_one_without_a_match() {
    assert_eq!(demotion_factor(true, bits(0.5)), bits(0.5));
    assert_eq!(demotion_factor(false, bits(0.5)), bits(1.0));
}

#[test]
fn fuzziness_follows_the_length() {
    for (token, expected) in [("", 0), ("ab", 0), ("abc", 1), ("ääöüß", 1), ("abcdef", 2)] {
        assert_eq!(auto_fuzziness(token), expected);
    }
}

#[test]
fn tokens_make_fuzzy_plans() {
    let mut o = options();
    o.fuzziness = None;
    o.prefix_length = 2;
    assert_eq!(
        format!("{:?}", build_token_query(3, "ärger", o).unwrap()),
        "Fuzzy { field: 3, token: \"ärger\", distance: 1, prefix: \"är\", max_expansions: 50 }"
    );
    o.prefix_length = u32::MAX;
    o.fuzziness = Some(2);
    assert_eq!(
        format!("{:?}", build_token_query(3, "ab", o).unwrap()),
        "Fuzzy { field: 3, token: \"ab\", distance: 2, prefix: \"ab\", max_expansions: 50 }"
    );
    o.fuzziness = Some(3);
    let message = "match query fuzziness must be auto/null or a value in [0, 2]";
    assert_eq!(build_token_query(3, "ab", o).unwrap_err(), query_error(message));
    let tokens = vec!["ab".to_string(), "cd".to_string()];
    assert_eq!(build_tokens_query(3, &tokens, o).unwrap_err(), query_error(message));
    assert_eq!(format!("{:?}", build_tokens_query(3, &Vec::new(), o).unwrap()), "Empty");
}

#[test]
fn match_options_are_checked() {
    assert_eq!(validate_match_options(None, 1, 0), Ok(()));
    assert_eq!(validate_match_options(Some(2), 1, 9), Ok(()));
    assert_eq!(
        validate_match_options(Some(3), 0, 0),
        Err(query_error("match query fuzziness must be auto/null or a value in [0, 2]"))
    );
    assert_eq!(
        validate_match_options(Some(0), 0, 0),
        Err(query_error("match query max_expansions must be positive"))
    );
    let columns = vec!["a".to_string(), "b".to_string()];
    assert_eq!(
        validate_multi_match_options(&Vec::new(), &vec![bits(0.0)], None, 1, 0),
        Err(query_error("multi_match query must contain at least one column"))
    );
    assert_eq!(
        validate_multi_match_options(&columns, &vec![bits(0.0)], None, 1, 0),
        Err(query_error("multi_match boosts length 1 does not match columns length 2"))
    );
    assert_eq!(
        validate_multi_match_options(&columns, &vec![bits(1.0), bits(-2.0)], None, 0, 0),
        Err(FtIndexError::InvalidBoost(bits(-2.0).bits))
    );
    assert_eq!(validate_multi_match_options(&columns, &Vec::new(), None, 1, 0), Ok(()));
    assert!(validate_multi_match_options(&columns, &Vec::new(), None, 0, 0).is_err());
}

#[test]
fn columns_are_resolved() {
    let config = two_fields();
    let index = open(&config);
    assert_eq!(resolve_text_field(&index, &config, Some(" body ")), Ok(2));
    assert_eq!(
        resolve_text_field(&index, &config, Some("  ")),
        Err(query_error("full-text query column must be set for multi-field indexes"))
    );
    assert_eq!(
        resolve_text_field(&index, &config, Some("row_id")),
        Err(query_error("full-text query column 'row_id' is not configured for this index"))
    );
    assert_eq!(resolve_match_fields(&index, &config, None), Ok(vec![1, 2]));
    assert_eq!(resolve_match_fields(&index, &config, Some("title")), Ok(vec![1]));
    let single = FullTextIndexConfig::new();
    assert_eq!(resolve_text_field(&open(&single), &single, None), Ok(1));
    assert_eq!(
        resolve_text_field(&index, &single, None),
        Err(query_error("missing text field 'text'"))
    );
    assert_eq!(
        resolve_match_fields(&index, &single, None),
        Err(query_error("missing text field 'text'"))
    );
}

#[test]
fn multi_match_boosts_each_column() {
    let query = QuerySpec::MultiMatch {
        terms: "x".to_string(),
        columns: vec!["body".to_string(), "title".to_string()],
        boosts: vec![bits(1.0), bits(2.0)],
        operator: MatchOperator::Or,
        fuzziness: Some(0),
        max_expansions: 1,
        prefix_length: 0,
    };
    let two = bits(2.0).bits;
    assert_eq!(
        planned(&two_fields(), &query),
        format!(
            "Boolean([(Should, Term {{ field: 2, token: \"x\" }}), (Should, Boosted {{ query: \
             Term {{ field: 1, token: \"x\" }}, boost: Score {{ bits: {two} }} }})])"
        )
    );
    let single = FullTextIndexConfig::new();
    assert_eq!(
        refused(&single, &query),
        query_error("full-text query column 'body' is not configured for this index")
    );
}

#[test]
fn phrases_are_quoted() {
    assert_eq!(phrase_query_text("full text", 0), "\"full text\"");
    assert_eq!(phrase_query_text("a", 12), "\"a\"~12");
    assert_eq!(phrase_query_text("a\\\"b", 0), "\"a\\\\\\\"b\"");
    let config = FullTextIndexConfig::new();
    let query =
        QuerySpec::MatchPhrase { column: None, terms: "Full \"text\"".to_string(), slop: 2 };
    assert_eq!(
        planned(&config, &query),
        "Phrase { field: 1, query_text: \"\\\"Full \\\\\\\"text\\\\\\\"\\\"~2\" }"
    );
    let mut config = FullTextIndexConfig::new();
    config.tokenizer.with_position = false;
    assert_eq!(refused(&config, &query), query_error("phrase query requires positions"));
}

#[test]
fn query_parser_errors_are_passed_on() {
    assert_eq!(
        checked_phrase(1, "\"x\"".to_string(), Some("no".to_string())).unwrap_err(),
        query_error("no")
    );
    assert!(checked_phrase(1, "\"x\"".to_string(), None).is_ok());
    // The schema was made without positions, which the configuration does not know.
    let mut without = FullTextIndexConfig::new();
    without.tokenizer.with_position = false;
    let index = open(&without);
    let config = FullTextIndexConfig::new();
    let query = QuerySpec::MatchPhrase { column: None, terms: "a b".to_string(), slop: 0 };
    match build_query(&index, &config, &query) {
        Err(FtIndexError::InvalidQuery(message)) => assert!(message.contains("position")),
        _ => panic!("a phrase needs positions"),
    }
}

#[test]
fn boolean_clauses_keep_their_order() {
    let config = FullTextIndexConfig::new();
    let q = |t: &str| match_in(None, t, 1.0);
    let query = boolean(
        vec![q("a")],
        vec![q("b")],
        vec![q("c")],
        vec![
            (BooleanOccur::MustNot, q("d")),
            (BooleanOccur::Should, q("e")),
            (BooleanOccur::Must, q("f")),
        ],
    );
    assert_eq!(
        planned(&config, &query),
        "Boolean([(Should, Term { field: 1, token: \"a\" }), (Must, Term { field: 1, token: \"b\" \
         }), (MustNot, Term { field: 1, token: \"c\" }), (MustNot, Term { field: 1, token: \"d\" \
         }), (Should, Term { field: 1, token: \"e\" }), (Must, Term { field: 1, token: \"f\" })])"
    );
}

#[test]
fn boolean_needs_something_to_look_for() {
    let config = FullTextIndexConfig::new();
    let q = |t: &str| match_in(None, t, 1.0);
    assert_eq!(
        refused(&config, &boolean(Vec::new(), Vec::new(), Vec::new(), Vec::new())),
        query_error("boolean query must contain at least one clause")
    );
    assert_eq!(
        refused(
            &config,
            &boolean(Vec::new(), Vec::new(), vec![q("a")], vec![(BooleanOccur::MustNot, q("b"))])
        ),
        query_error("boolean query must contain at least one should or must clause")
    );
    let nested = boolean(
        vec![q("a")],
        vec![boolean(Vec::new(), Vec::new(), vec![q("b")], Vec::new())],
        Vec::new(),
        Vec::new(),
    );
    assert_eq!(
        refused(&config, &nested),
        query_error("boolean query must contain at least one should or must clause")
    );
}

#[test]
fn boost_query_is_planned() {
    let config = FullTextIndexConfig::new();
    let query = |negative_boost: f32| QuerySpec::Boost {
        positive: Box::new(match_in(None, "a", 1.0)),
        negative: Box::new(match_in(None, "b", 1.0)),
        negative_boost: bits(negative_boost),
    };
    let half = bits(0.5).bits;
    assert_eq!(
        planned(&config, &query(0.5)),
        format!(
            "Demote {{ positive: Term {{ field: 1, token: \"a\" }}, negative: Term {{ field: 1, \
             token: \"b\" }}, negative_boost: Score {{ bits: {half} }} }}"
        )
    );
    assert_eq!(
        refused(&config, &query(1.5)),
        FtIndexError::InvalidNegativeBoost(bits(1.5).bits)
    );
    assert_eq!(
        refused(&config, &match_in(None, "a", 0.0)),
        FtIndexError::InvalidBoost(bits(0.0).bits)
    );
}

fn reader() -> FullTextIndexReader {
    reader_of(FullTextIndexConfig::new())
}

fn reader_of(config: FullTextIndexConfig) -> FullTextIndexReader {
    let writer = FullTextIndexWriter::new(config).unwrap();
    let header = writer.archive_header(&Vec::new()).unwrap();
    let schema = writer.state.unwrap().schema;
    FullTextIndexReader::open(header, schema).unwrap()
}

fn filter_bytes(rows: &[u64]) -> Vec<u8> {
    let mut set = RoaringTreemap::new();
    for row in rows {
        set.insert(*row);
    }
    let mut bytes = Vec::new();
    set.serialize_into(&mut bytes).unwrap();
    bytes
}

#[test]
fn searches_are_checked_in_order() {
    let reader = reader();
    let unreadable = || Err(query_error("unreadable"));
    let limit_error = query_error("search limit must be positive");
    assert_eq!(reader.search(unreadable(), 0).err(), Some(limit_error));
    assert_eq!(reader.search(unreadable(), 1).err(), Some(query_error("unreadable")));
    let request = reader.search(Ok(match_in(None, "x", 1.0)), 5).unwrap();
    assert_eq!(request.limit, 5);
    assert!(matches!(request.query, QueryPlan::Term { .. }));
    assert!(request.allows(0) && request.allows(u64::MAX));
    match reader.search_with_roaring_filter(unreadable(), 0, b"?") {
        Err(FtIndexError::InvalidQuery(message)) => {
            assert!(message.starts_with("invalid RoaringTreemap filter: "))
        }
        _ => panic!("the filter comes first"),
    }
    assert_eq!(
        reader.search_with_roaring_filter(unreadable(), 0, &filter_bytes(&[1])).err(),
        Some(query_error("search limit must be positive"))
    );
}

#[test]
fn the_limit_comes_before_the_tokenizer() {
    let mut config = FullTextIndexConfig::new();
    config.tokenizer.stem = true;
    config.tokenizer.language = "greek".to_string();
    let reader = reader_of(config);
    assert_eq!(
        reader.search(Ok(match_in(None, "x", 1.0)), 0).err(),
        Some(query_error("search limit must be positive"))
    );
    assert_eq!(
        reader.search(Err(query_error("unreadable")), 1).err(),
        Some(query_error("unreadable"))
    );
}

#[test]
fn filters_allow_what_they_hold() {
    let reader = reader();
    let bytes = filter_bytes(&[3, 1 << 40]);
    let query = || Ok(match_in(None, "x", 1.0));
    let request = reader.search_with_roaring_filter(query(), 1, &bytes).unwrap();
    assert!(request.allows(3) && request.allows(1 << 40));
    assert!(!request.allows(4) && !request.allows(0));
    let none = reader.search_with_filter(query(), 1, Some(RoaringTreemap::new())).unwrap();
    assert!(!none.allows(3));
    assert_eq!(decode_roaring_filter(&bytes).unwrap().len(), 2);
    assert_eq!(
        checked_filter(Err("short".to_string())).err(),
        Some(query_error("invalid RoaringTreemap filter: short"))
    );
}

#[test]
fn row_ids_come_back() {
    let found = vec![
        (bits(2.0), 0),
        (bits(1.5), i64::MAX as u64),
        (bits(1.0), u64::MAX),
        (bits(0.5), 1 << 63),
    ];
    let result = collect_results(&found);
    assert_eq!(result.row_ids, vec![0, i64::MAX, -1, i64::MIN]);
    assert_eq!(result.scores, vec![bits(2.0), bits(1.5), bits(1.0), bits(0.5)]);
    assert_eq!(result.clone(), result);
}

fn greek() -> FullTextIndexConfig {
    let mut config = FullTextIndexConfig::new();
    config.tokenizer.stem = true;
    config.tokenizer.language = "greek".to_string();
    config
}

fn phrase(terms: &str) -> QuerySpec {
    QuerySpec::MatchPhrase { column: None, terms: terms.to_string(), slop: 0 }
}

#[test]
fn an_index_that_stems_greek_is_searched() {
    let reader = reader_of(greek());
    let request = reader.try_search(Ok(match_in(None, "Καλημέρα", 1.0)), 5).unwrap().unwrap();
    match request.query {
        QueryPlan::Term { field, token } => assert_eq!((field, token.as_str()), (1, "καλημερ")),
        _ => panic!("one token is looked up"),
    }
    assert!(reader.try_search(Ok(match_in(None, "αναιρέτε", 1.0)), 5).is_none());
    assert!(reader.try_search(Ok(phrase("αναιρέτε")), 5).is_none());
    assert!(matches!(reader.try_search(Ok(phrase("παιδιά αναιρετέος")), 5), Some(Ok(_))));
    let bytes = filter_bytes(&[7]);
    let bad = || Ok(match_in(None, "αναιρέτε", 1.0));
    assert!(reader.try_search_with_roaring_filter(bad(), 5, &bytes).is_none());
    assert!(matches!(reader.try_search_with_roaring_filter(bad(), 5, b"?"), Some(Err(_))));
    let good = Ok(match_in(None, "Καλημέρα", 1.0));
    let request = reader.try_search_with_roaring_filter(good, 5, &bytes).unwrap().unwrap();
    assert!(request.allows(7) && !request.allows(8));
}

#[test]
fn a_query_that_is_refused_before_its_text_is_cut_is_refused_on_every_index() {
    let mut config = greek();
    assert!(!can_build_query(&open(&config), &config, &phrase("αναιρέτε")));
    config.tokenizer.with_position = false;
    assert!(can_build_query(&open(&config), &config, &phrase("αναιρέτε")));
    assert_eq!(
        refused(&config, &phrase("αναιρέτε")),
        query_error("phrase query requires positions")
    );
    assert_eq!(
        refused(&config, &match_in(None, "αναιρέτε", 0.0)),
        FtIndexError::InvalidBoost(bits(0.0).bits)
    );
    let mut unboosted = options();
    unboosted.boost = bits(-1.0);
    assert_eq!(
        build_field_match_query(&open(&config), &config, 1, "αναιρέτε", unboosted).err(),
        Some(FtIndexError::InvalidBoost(bits(-1.0).bits))
    );
    let lists = |should: Vec<QuerySpec>, must: Vec<QuerySpec>| QuerySpec::Boolean {
        should,
        must,
        must_not: Vec::new(),
        queries: Vec::new(),
    };
    let bad = || match_in(None, "αναιρέτε", 1.0);
    let refused_first = lists(vec![match_in(None, "a", 0.0)], vec![bad()]);
    assert!(can_build_query(&open(&config), &config, &refused_first));
    assert_eq!(refused(&config, &refused_first), FtIndexError::InvalidBoost(bits(0.0).bits));
    let refused_last = lists(vec![bad()], vec![match_in(None, "a", 0.0)]);
    assert!(!can_build_query(&open(&config), &config, &refused_last));
}

#[test]
fn a_clause_counts_the_same_in_either_list() {
    let config = two_fields();
    let a = || match_in(Some("title"), "a", 1.0);
    let b = || match_in(Some("body"), "b", 1.0);
    let clauses = |query: QuerySpec| match build_query(&open(&config), &config, &query) {
        Ok(QueryPlan::Boolean(clauses)) => {
            let mut seen: Vec<String> =
                clauses.iter().map(|clause| format!("{clause:?}")).collect();
            seen.sort();
            seen
        }
        _ => panic!("both clauses have plans"),
    };
    let listed = QuerySpec::Boolean {
        should: vec![a()],
        must: Vec::new(),
        must_not: vec![b()],
        queries: Vec::new(),
    };
    let moved = QuerySpec::Boolean {
        should: Vec::new(),
        must: Vec::new(),
        must_not: Vec::new(),
        queries: vec![(BooleanOccur::MustNot, b()), (BooleanOccur::Should, a())],
    };
    assert_eq!(clauses(listed), clauses(moved));
}

use paimon_ftindex_core::config::FullTextIndexConfig;
use paimon_ftindex_core::error::FtIndexError;
use paimon_ftindex_core::tokenizer::{
    find_setting, parse_bool, parse_tokenizer, parse_usize, strip_option_prefix, Setting,
    TokenizerConfig, TokenizerKind,
};
use std::collections::HashMap;

fn entries(pairs: &[(&str, &str)]) -> Vec<(String, String)> {
    pairs.iter().map(|(k, v)| (k.to_string(), v.to_string())).collect()
}

fn option_error(key: &str, message: &str) -> FtIndexError {
    FtIndexError::InvalidOption { key: key.to_string(), message: message.to_string() }
}

#[test]
fn tokenizer_options_parse_jieba_settings() {
    let mut options = HashMap::new();
    options.insert("fulltext.tokenizer".to_string(), "jieba".to_string());
    options.insert("fulltext.jieba.search-mode".to_string(), "false".to_string());
    options.insert("fulltext.jieba.ordinal-position".to_string(), "false".to_string());

    let config = TokenizerConfig::from_options(&options).unwrap();

    assert_eq!(config.tokenizer, TokenizerKind::Jieba);
    assert!(!config.jieba_search_mode);
    assert!(!config.jieba_ordinal_position);
}

#[test]
fn default_configuration_is_documented() {
    let config = TokenizerConfig::from_options(&HashMap::new()).unwrap();
    assert_eq!(config, TokenizerConfig::default());
    assert_eq!(config.tokenizer, TokenizerKind::default());
    assert_eq!(config.ngram_min_gram, 2);
    assert_eq!(config.ngram_max_gram, 2);
    assert!(config.lower_case && config.with_position && config.jieba_search_mode);
    assert!(config.jieba_ordinal_position && !config.ngram_prefix_only && !config.stem);
    assert!(!config.ascii_folding && !config.remove_stop_words);
    assert_eq!(config.max_token_length, 40);
    assert_eq!(config.language, "english");
    assert!(config.stop_words.is_empty());
}

#[test]
fn every_setting_is_read() {
    let config = TokenizerConfig::from_entries(&entries(&[
        ("tokenizer", " NGram "),
        ("ngram.min-gram", "+3"),
        ("ngram.max-gram", " 5 "),
        ("ngram.prefix-only", "TRUE"),
        ("jieba.search-mode", "false"),
        ("jieba.ordinal-position-mode", "False"),
        ("lower-case", "false"),
        ("max-token-length", "007"),
        ("ascii-folding", "true"),
        ("stem", "true"),
        ("language", "  GERMAN "),
        ("remove-stop-words", "true"),
        ("stop-words", " a ;; b;\tc ; "),
        ("with-position", "false"),
        ("something.else", "is ignored"),
    ]))
    .unwrap();
    assert_eq!(
        config,
        TokenizerConfig {
            tokenizer: TokenizerKind::Ngram,
            ngram_min_gram: 3,
            ngram_max_gram: 5,
            ngram_prefix_only: true,
            jieba_search_mode: false,
            jieba_ordinal_position: false,
            lower_case: false,
            max_token_length: 7,
            ascii_folding: true,
            stem: true,
            language: "german".to_string(),
            remove_stop_words: true,
            stop_words: vec!["a".to_string(), "b".to_string(), "c".to_string()],
            with_position: false,
        }
    );
    assert_eq!(config.clone(), config);
}

#[test]
fn lower_case_goes_beyond_ascii() {
    let config = TokenizerConfig::from_entries(&entries(&[("language", "\u{3000}ÄRZTE ")])).unwrap();
    assert_eq!(config.language, "ärzte");
}

#[test]
fn prefixes_are_interchangeable() {
    let plain = TokenizerConfig::from_entries(&entries(&[("stem", "true")])).unwrap();
    for key in ["fulltext.stem", "tantivy.stem"] {
        let prefixed = TokenizerConfig::from_entries(&entries(&[(key, "true")])).unwrap();
        assert_eq!(prefixed, plain);
    }
    assert_eq!(strip_option_prefix("fulltext.tantivy.stem"), "tantivy.stem");
    assert_eq!(strip_option_prefix("tantivy.stem"), "stem");
    assert_eq!(strip_option_prefix("stem"), "stem");
    let unknown = TokenizerConfig::from_entries(&entries(&[("fulltext.tantivy.stem", "true")]));
    assert_eq!(unknown.unwrap(), TokenizerConfig::default());
}

#[test]
fn order_does_not_matter_without_repeats() {
    let forward = entries(&[("stem", "true"), ("ngram.max-gram", "9"), ("ngram.min-gram", "4")]);
    let mut backward = entries(&[]);
    for e in forward.iter().rev() {
        backward.push(e.clone());
    }
    assert_eq!(
        TokenizerConfig::from_entries(&forward).unwrap(),
        TokenizerConfig::from_entries(&backward).unwrap()
    );
    let last = entries(&[("stem", "true"), ("fulltext.stem", "false")]);
    assert!(!TokenizerConfig::from_entries(&last).unwrap().stem);
}

#[test]
fn unusable_values_are_refused() {
    let refused = |pairs: &[(&str, &str)]| TokenizerConfig::from_entries(&entries(pairs)).unwrap_err();
    assert_eq!(
        refused(&[("tokenizer", " Foo ")]),
        option_error("tokenizer", "unsupported tokenizer 'foo'")
    );
    assert_eq!(
        refused(&[("fulltext.max-token-length", " -1")]),
        option_error("max-token-length", "expected unsigned integer, got ' -1'")
    );
    assert_eq!(
        refused(&[("stem", "yes"), ("tokenizer", "foo")]),
        option_error("stem", "expected boolean, got 'yes'")
    );
    assert_eq!(
        refused(&[("ngram.min-gram", "0")]),
        option_error("ngram.min-gram", "must be positive")
    );
    assert_eq!(
        refused(&[("ngram.max-gram", "0")]),
        option_error("ngram.max-gram", "must be positive")
    );
    assert_eq!(
        refused(&[("ngram.min-gram", "3")]),
        option_error("ngram.min-gram", "must not exceed ngram.max-gram")
    );
    assert_eq!(
        refused(&[("max-token-length", "0")]),
        option_error("max-token-length", "must be positive")
    );
}

#[test]
fn single_values_are_parsed() {
    assert_eq!(parse_tokenizer("WhiteSpace"), Ok(TokenizerKind::Whitespace));
    assert_eq!(parse_tokenizer("simple"), Ok(TokenizerKind::Simple));
    assert_eq!(parse_tokenizer("raw"), Ok(TokenizerKind::Raw));
    assert_eq!(parse_tokenizer("default"), Ok(TokenizerKind::Default));
    assert_eq!(parse_usize("k", "18446744073709551615"), Ok(18446744073709551615));
    assert_eq!(
        parse_usize("k", "18446744073709551616"),
        Err(option_error("k", "expected unsigned integer, got '18446744073709551616'"))
    );
    assert!(parse_usize("k", "").is_err());
    assert!(parse_usize("k", "+").is_err());
    assert!(parse_usize("k", "++1").is_err());
    assert_eq!(parse_bool("k", "\u{a0}false\u{2003}"), Ok(false));
    assert_eq!(find_setting("with-position"), Some(Setting::WithPosition));
    assert_eq!(find_setting("With-Position"), None);
}

#[test]
fn index_options_name_the_text_fields() {
    let mut options = HashMap::new();
    options.insert("text-fields".to_string(), "title, body,".to_string());
    options.insert("tokenizer".to_string(), "raw".to_string());
    let config = FullTextIndexConfig::from_options(&options).unwrap();
    assert_eq!(config.text_fields, vec!["title".to_string(), "body".to_string()]);
    assert_eq!(config.row_id_field, "row_id");
    assert_eq!(config.default_text_field(), "title");
    assert_eq!(config.tokenizer.tokenizer, TokenizerKind::Raw);
    assert!(config.has_usable_fields());
    assert_eq!(config.clone(), config);
    assert_eq!(
        FullTextIndexConfig::from_entries(&entries(&[("text-fields", " , ")])).unwrap(),
        FullTextIndexConfig::new()
    );
    assert!(FullTextIndexConfig::from_entries(&entries(&[("stem", "?")])).is_err());
}

#[test]
fn unusable_field_names_are_found() {
    for bad in ["row_id", "-x", "a,a"] {
        let config = FullTextIndexConfig::from_entries(&entries(&[("text-fields", bad)])).unwrap();
        assert!(!config.has_usable_fields());
    }
    let mut config = FullTextIndexConfig::new();
    config.text_fields = vec!["".to_string()];
    assert!(!config.has_usable_fields());
    config.text_fields = Vec::new();
    assert!(config.has_usable_fields());
    assert_eq!(config.default_text_field(), "text");
    config.tokenizer.max_token_length = 0;
    assert_eq!(config.validate(), Err(option_error("max-token-length", "must be positive")));
}

use paimon_ftindex_core::analyzer::{
    analyze_terms, build_text_analyzer, can_analyze, parse_language, tokenizer_name,
};
use paimon_ftindex_core::error::FtIndexError;
use paimon_ftindex_core::greek::can_break_greek_stemmer;
use paimon_ftindex_core::tokenizer::{TokenizerConfig, TokenizerKind};
use tantivy::tokenizer::Language;

fn with(kind: TokenizerKind) -> TokenizerConfig {
    TokenizerConfig { tokenizer: kind, ..TokenizerConfig::default() }
}

fn tokens(config: &TokenizerConfig, text: &str) -> Vec<String> {
    analyze_terms(&build_text_analyzer(config).unwrap(), text)
}

fn option_error(key: &str, message: &str) -> FtIndexError {
    FtIndexError::InvalidOption { key: key.to_string(), message: message.to_string() }
}

fn refusal(config: &TokenizerConfig) -> FtIndexError {
    match build_text_analyzer(config) {
        Ok(_) => panic!("the configuration should be refused"),
        Err(e) => e,
    }
}

#[test]
fn simple_tokenizer_cuts_at_punctuation() {
    for kind in [TokenizerKind::Default, TokenizerKind::Simple] {
        assert_eq!(tokens(&with(kind), "Hello, Wörld-42!"), vec!["hello", "wörld", "42"]);
    }
    assert!(tokens(&with(TokenizerKind::Default), " ,.; ").is_empty());
}

#[test]
fn whitespace_tokenizer_cuts_at_ascii_space() {
    let config = with(TokenizerKind::Whitespace);
    assert_eq!(tokens(&config, "a,b\tC\u{a0}d"), vec!["a,b", "c\u{a0}d"]);
}

#[test]
fn raw_tokenizer_keeps_the_text() {
    let mut config = with(TokenizerKind::Raw);
    config.lower_case = false;
    assert_eq!(tokens(&config, "Hello, World"), vec!["Hello, World"]);
    assert_eq!(tokens(&config, ""), vec![""]);
    config.max_token_length = 12;
    assert!(tokens(&config, "Hello, World").is_empty());
    config.max_token_length = 13;
    assert_eq!(tokens(&config, "Hello, World").len(), 1);
}

#[test]
fn ngram_tokenizer_makes_grams() {
    let mut config = with(TokenizerKind::Ngram);
    config.ngram_max_gram = 3;
    assert_eq!(
        tokens(&config, "hello"),
        vec!["he", "hel", "el", "ell", "ll", "llo", "lo"]
    );
    config.ngram_prefix_only = true;
    assert_eq!(tokens(&config, "hεllo"), vec!["hε", "hεl"]);
    assert!(tokens(&config, "h").is_empty());
}

#[test]
fn ngram_limits_are_checked() {
    let mut config = with(TokenizerKind::Ngram);
    config.ngram_min_gram = 0;
    assert_eq!(
        refusal(&config),
        option_error("ngram", "An invalid argument was passed: 'min_gram must be greater than 0'")
    );
    config.ngram_min_gram = 3;
    assert_eq!(
        refusal(&config),
        option_error(
            "ngram",
            "An invalid argument was passed: 'min_gram must not be greater than max_gram'"
        )
    );
}

#[test]
fn jieba_tokenizer_cuts_chinese() {
    let mut config = with(TokenizerKind::Jieba);
    assert!(tokens(&config, "中华人民共和国").contains(&"中华".to_string()));
    config.jieba_search_mode = false;
    assert_eq!(tokens(&config, "中华人民共和国"), vec!["中华人民共和国"]);
}

#[test]
fn long_tokens_are_dropped_by_bytes() {
    let mut config = with(TokenizerKind::Simple);
    config.max_token_length = 5;
    assert_eq!(tokens(&config, "four fives ääa ää"), vec!["four", "ää"]);
}

#[test]
fn stemming_follows_lower_case() {
    let mut config = with(TokenizerKind::Simple);
    config.stem = true;
    assert_eq!(tokens(&config, "Running Dogs"), vec!["run", "dog"]);
    config.language = "klingon".to_string();
    assert_eq!(
        refusal(&config),
        option_error("language", "unsupported tokenizer language 'klingon'")
    );
}

#[test]
fn stop_words_are_left_out() {
    let mut config = with(TokenizerKind::Simple);
    config.remove_stop_words = true;
    assert_eq!(tokens(&config, "The cat and the dog"), vec!["cat", "dog"]);
    config.stop_words = vec!["cat".to_string()];
    assert_eq!(tokens(&config, "The cat and the dog"), vec!["dog"]);
    config.language = "Greek".to_string();
    assert_eq!(tokens(&config, "the cat"), vec!["the"]);
    config.stop_words = Vec::new();
    assert_eq!(
        refusal(&config),
        option_error("language", "removing stop words for language 'Greek' is not supported")
    );
    config.language = "??".to_string();
    assert_eq!(refusal(&config), option_error("language", "unsupported tokenizer language '??'"));
}

#[test]
fn ascii_folding_comes_last() {
    let mut config = with(TokenizerKind::Simple);
    config.ascii_folding = true;
    assert_eq!(tokens(&config, "Crème Brûlée"), vec!["creme", "brulee"]);
}

#[test]
fn languages_have_names_and_codes() {
    let names = [
        ("arabic", Language::Arabic),
        ("danish", Language::Danish),
        ("dutch", Language::Dutch),
        ("english", Language::English),
        ("en", Language::English),
        ("finnish", Language::Finnish),
        ("french", Language::French),
        ("fr", Language::French),
        ("german", Language::German),
        ("de", Language::German),
        ("greek", Language::Greek),
        ("hungarian", Language::Hungarian),
        ("italian", Language::Italian),
        ("it", Language::Italian),
        ("norwegian", Language::Norwegian),
        ("portuguese", Language::Portuguese),
        ("pt", Language::Portuguese),
        ("romanian", Language::Romanian),
        ("russian", Language::Russian),
        ("ru", Language::Russian),
        ("spanish", Language::Spanish),
        ("es", Language::Spanish),
        ("swedish", Language::Swedish),
        ("tamil", Language::Tamil),
        ("turkish", Language::Turkish),
    ];
    for (name, language) in names {
        assert_eq!(parse_language(name), Ok(language));
        assert_eq!(parse_language(&format!(" {} ", name.to_uppercase())), Ok(language));
    }
    assert!(parse_language("").is_err());
}

#[test]
fn stop_word_lists_exist_for_most_languages() {
    for name in ["arabic", "greek", "romanian", "tamil", "turkish"] {
        let mut config = with(TokenizerKind::Simple);
        config.remove_stop_words = true;
        config.language = name.to_string();
        assert!(build_text_analyzer(&config).is_err());
    }
    for name in [
        "danish", "dutch", "english", "finnish", "french", "german", "hungarian", "italian",
        "norwegian", "portuguese", "russian", "spanish", "swedish",
    ] {
        let mut config = with(TokenizerKind::Simple);
        config.remove_stop_words = true;
        config.language = name.to_string();
        assert!(build_text_analyzer(&config).is_ok());
    }
}

#[test]
fn tokenizers_are_registered_under_three_names() {
    assert_eq!(tokenizer_name(&with(TokenizerKind::Default)), "paimon_custom");
    assert_eq!(tokenizer_name(&with(TokenizerKind::Simple)), "paimon_custom");
    assert_eq!(tokenizer_name(&with(TokenizerKind::Whitespace)), "paimon_custom");
    assert_eq!(tokenizer_name(&with(TokenizerKind::Raw)), "paimon_custom");
    assert_eq!(tokenizer_name(&with(TokenizerKind::Ngram)), "paimon_ngram");
    assert_eq!(tokenizer_name(&with(TokenizerKind::Jieba)), "paimon_jieba");
}

fn greek() -> TokenizerConfig {
    TokenizerConfig { stem: true, language: "Greek".to_string(), ..TokenizerConfig::default() }
}

#[test]
fn greek_is_stemmed() {
    assert!(can_analyze(&greek(), "Καλημέρα, παιδιά"));
    assert_eq!(tokens(&greek(), "Καλημέρα, παιδιά"), vec!["καλημερ", "πα"]);
    assert_eq!(tokens(&greek(), "ισάξιος αναιρετέους"), vec!["ισαξι", "αναιρετε"]);
}

#[test]
fn words_that_break_the_greek_stemmer_are_told_apart() {
    for word in ["ισαισα", "ΙΣΑΊΣΕΣ", "ισαισανωθηκαιζω", "αναιρέτε", "αναιρετέησετε", "δταθετεακι"]
    {
        assert!(can_break_greek_stemmer(word), "{word}");
        assert!(!can_analyze(&greek(), word));
        let text = format!("καλημέρα {word}");
        assert!(!can_analyze(&greek(), &text));
        assert!(can_analyze(&with(TokenizerKind::Default), &text));
    }
    for word in
        ["", "ισα", "ισαϊσα", "ισαισο", "ισαισαο", "αναιρετέος", "αναιρετ", "σχετε", "απλβρετε"]
    {
        assert!(!can_break_greek_stemmer(word), "{word}");
        assert!(can_analyze(&greek(), word));
        tokens(&greek(), word);
    }
}

#[test]
fn grams_without_limit_are_not_run() {
    let config = TokenizerConfig {
        tokenizer: TokenizerKind::Ngram,
        ngram_max_gram: usize::MAX,
        ..TokenizerConfig::default()
    };
    assert!(!can_analyze(&config, "a"));
}

#[test]
fn letters_beyond_ascii_change_one_by_one() {
    let mut config = with(TokenizerKind::Default);
    assert_eq!(tokens(&config, "ΣΊΣΥΦΟΣ Ünï"), vec!["σίσυφοσ", "ünï"]);
    config.ascii_folding = true;
    config.lower_case = false;
    assert_eq!(tokens(&config, "Æther Straße 中b"), vec!["AEther", "Strasse", "中b"]);
}

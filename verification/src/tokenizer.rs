//! The tokenizer's configuration and how string options set it.
use crate::error::{join, joined, unit_result_is, ErrorView, FtIndexError};
use crate::text::{
    list_words, listed_words, lowercased, parse_unsigned, same_text, strip_prefix, stripped,
    text_views, trimmed, unsigned_number,
};
use std::collections::HashMap;
use vstd::prelude::*;

verus! {

/// How a text is cut into tokens.
#[derive(Clone, Copy, Debug, PartialEq, Eq, Structural)]
pub enum TokenizerKind {
    Default,
    Simple,
    Whitespace,
    Raw,
    Ngram,
    Jieba,
}

impl Default for TokenizerKind {
    fn default() -> (r: Self)
        ensures
            r == TokenizerKind::Default,
    {
        TokenizerKind::Default
    }
}

/// How a text is cut into tokens and what is done with each of them.
#[derive(Debug, PartialEq, Eq)]
pub struct TokenizerConfig {
    pub tokenizer: TokenizerKind,
    pub ngram_min_gram: usize,
    pub ngram_max_gram: usize,
    pub ngram_prefix_only: bool,
    pub jieba_search_mode: bool,
    pub jieba_ordinal_position: bool,
    pub lower_case: bool,
    pub max_token_length: usize,
    pub ascii_folding: bool,
    pub stem: bool,
    pub language: String,
    pub remove_stop_words: bool,
    pub stop_words: Vec<String>,
    pub with_position: bool,
}

/// The model of a `TokenizerConfig`: its texts by their characters.
#[verifier::ext_equal]
pub struct TokenizerConfigView {
    pub tokenizer: TokenizerKind,
    pub ngram_min_gram: usize,
    pub ngram_max_gram: usize,
    pub ngram_prefix_only: bool,
    pub jieba_search_mode: bool,
    pub jieba_ordinal_position: bool,
    pub lower_case: bool,
    pub max_token_length: usize,
    pub ascii_folding: bool,
    pub stem: bool,
    pub language: Seq<char>,
    pub remove_stop_words: bool,
    pub stop_words: Seq<Seq<char>>,
    pub with_position: bool,
}

impl View for TokenizerConfig {
    type V = TokenizerConfigView;

    open spec fn view(&self) -> TokenizerConfigView {
        TokenizerConfigView {
            tokenizer: self.tokenizer,
            ngram_min_gram: self.ngram_min_gram,
            ngram_max_gram: self.ngram_max_gram,
            ngram_prefix_only: self.ngram_prefix_only,
            jieba_search_mode: self.jieba_search_mode,
            jieba_ordinal_position: self.jieba_ordinal_position,
            lower_case: self.lower_case,
            max_token_length: self.max_token_length,
            ascii_folding: self.ascii_folding,
            stem: self.stem,
            language: self.language@,
            remove_stop_words: self.remove_stop_words,
            stop_words: text_views(self.stop_words@),
            with_position: self.with_position,
        }
    }
}

/// A copy of a list of strings.
pub fn clone_texts(texts: &Vec<String>) -> (r: Vec<String>)
    ensures
        text_views(r@) == text_views(texts@),
{
    let mut out: Vec<String> = Vec::new();
    let mut i: usize = 0;
    while i < texts.len()
        invariant
            i <= texts.len(),
            text_views(out@) == text_views(texts@).take(i as int),
        decreases texts.len() - i,
    {
        let ghost before = out@;
        out.push(texts[i].clone());
        proof {
            assert(text_views(out@) =~= text_views(before).push(texts@[i as int]@));
            assert(text_views(texts@).take(i + 1) =~= text_views(texts@).take(i as int).push(
                texts@[i as int]@,
            ));
        }
        i = i + 1;
    }
    assert(text_views(texts@).take(texts@.len() as int) =~= text_views(texts@));
    out
}

impl Clone for TokenizerConfig {
    fn clone(&self) -> (r: Self)
        ensures
            r@ == self@,
    {
        TokenizerConfig {
            tokenizer: self.tokenizer,
            ngram_min_gram: self.ngram_min_gram,
            ngram_max_gram: self.ngram_max_gram,
            ngram_prefix_only: self.ngram_prefix_only,
            jieba_search_mode: self.jieba_search_mode,
            jieba_ordinal_position: self.jieba_ordinal_position,
            lower_case: self.lower_case,
            max_token_length: self.max_token_length,
            ascii_folding: self.ascii_folding,
            stem: self.stem,
            language: self.language.clone(),
            remove_stop_words: self.remove_stop_words,
            stop_words: clone_texts(&self.stop_words),
            with_position: self.with_position,
        }
    }
}

/// The configuration that holds where no option says otherwise.
pub open spec fn default_config() -> TokenizerConfigView {
    TokenizerConfigView {
        tokenizer: TokenizerKind::Default,
        ngram_min_gram: 2,
        ngram_max_gram: 2,
        ngram_prefix_only: false,
        jieba_search_mode: true,
        jieba_ordinal_position: true,
        lower_case: true,
        max_token_length: 40,
        ascii_folding: false,
        stem: false,
        language: "english"@,
        remove_stop_words: false,
        stop_words: Seq::empty(),
        with_position: true,
    }
}

impl Default for TokenizerConfig {
    fn default() -> (r: Self)
        ensures
            r@ == default_config(),
    {
        let r = TokenizerConfig {
            tokenizer: TokenizerKind::Default,
            ngram_min_gram: 2,
            ngram_max_gram: 2,
            ngram_prefix_only: false,
            jieba_search_mode: true,
            jieba_ordinal_position: true,
            lower_case: true,
            max_token_length: 40,
            ascii_folding: false,
            stem: false,
            language: "english".to_owned(),
            remove_stop_words: false,
            stop_words: Vec::new(),
            with_position: true,
        };
        assert(r@.stop_words =~= Seq::<Seq<char>>::empty());
        r
    }
}

/// What a single option sets.
#[derive(Clone, Copy, Debug, PartialEq, Eq, Structural)]
pub enum Setting {
    Tokenizer,
    NgramMinGram,
    NgramMaxGram,
    NgramPrefixOnly,
    JiebaSearchMode,
    JiebaOrdinalPosition,
    LowerCase,
    MaxTokenLength,
    AsciiFolding,
    Stem,
    Language,
    RemoveStopWords,
    StopWords,
    WithPosition,
}

/// A value that an option can set.
pub enum SettingValue {
    Kind(TokenizerKind),
    Size(usize),
    Flag(bool),
    Text(Seq<char>),
    Words(Seq<Seq<char>>),
}

/// An option's key without the prefix `fulltext.` or, failing that, `tantivy.`.
pub open spec fn option_key(raw: Seq<char>) -> Seq<char> {
    match stripped(raw, "fulltext."@) {
        Some(rest) => rest,
        None => match stripped(raw, "tantivy."@) {
            Some(rest) => rest,
            None => raw,
        },
    }
}

/// What the key sets; `None` for a key that is none of the tokenizer's.
pub open spec fn setting_of(key: Seq<char>) -> Option<Setting> {
    if key == "tokenizer"@ {
        Some(Setting::Tokenizer)
    } else if key == "ngram.min-gram"@ {
        Some(Setting::NgramMinGram)
    } else if key == "ngram.max-gram"@ {
        Some(Setting::NgramMaxGram)
    } else if key == "ngram.prefix-only"@ {
        Some(Setting::NgramPrefixOnly)
    } else if key == "jieba.search-mode"@ {
        Some(Setting::JiebaSearchMode)
    } else if key == "jieba.ordinal-position"@ || key == "jieba.ordinal-position-mode"@ {
        Some(Setting::JiebaOrdinalPosition)
    } else if key == "lower-case"@ {
        Some(Setting::LowerCase)
    } else if key == "max-token-length"@ {
        Some(Setting::MaxTokenLength)
    } else if key == "ascii-folding"@ {
        Some(Setting::AsciiFolding)
    } else if key == "stem"@ {
        Some(Setting::Stem)
    } else if key == "language"@ {
        Some(Setting::Language)
    } else if key == "remove-stop-words"@ {
        Some(Setting::RemoveStopWords)
    } else if key == "stop-words"@ {
        Some(Setting::StopWords)
    } else if key == "with-position"@ {
        Some(Setting::WithPosition)
    } else {
        None
    }
}

/// The tokenizer that `value` names, in any case and with space around it.
pub open spec fn tokenizer_named(value: Seq<char>) -> Result<TokenizerKind, ErrorView> {
    let name = lowercased(trimmed(value));
    if name == "default"@ {
        Ok(TokenizerKind::Default)
    } else if name == "simple"@ {
        Ok(TokenizerKind::Simple)
    } else if name == "whitespace"@ {
        Ok(TokenizerKind::Whitespace)
    } else if name == "raw"@ {
        Ok(TokenizerKind::Raw)
    } else if name == "ngram"@ {
        Ok(TokenizerKind::Ngram)
    } else if name == "jieba"@ {
        Ok(TokenizerKind::Jieba)
    } else {
        Err(
            ErrorView::InvalidOption {
                key: "tokenizer"@,
                message: joined("unsupported tokenizer '"@, name, "'"@),
            },
        )
    }
}

/// The number that `value` writes, with space around it.
pub open spec fn size_named(key: Seq<char>, value: Seq<char>) -> Result<usize, ErrorView> {
    match unsigned_number(trimmed(value)) {
        Some(n) if n <= usize::MAX => Ok(n as usize),
        _ => Err(
            ErrorView::InvalidOption {
                key,
                message: joined("expected unsigned integer, got '"@, value, "'"@),
            },
        ),
    }
}

/// The truth value that `value` names, in any case and with space around it.
pub open spec fn flag_named(key: Seq<char>, value: Seq<char>) -> Result<bool, ErrorView> {
    let name = lowercased(trimmed(value));
    if name == "true"@ {
        Ok(true)
    } else if name == "false"@ {
        Ok(false)
    } else {
        Err(
            ErrorView::InvalidOption {
                key,
                message: joined("expected boolean, got '"@, value, "'"@),
            },
        )
    }
}

/// The value that an option with this key and text sets.
pub open spec fn setting_value(setting: Setting, key: Seq<char>, value: Seq<char>) -> Result<
    SettingValue,
    ErrorView,
> {
    match setting {
        Setting::Tokenizer => match tokenizer_named(value) {
            Ok(kind) => Ok(SettingValue::Kind(kind)),
            Err(e) => Err(e),
        },
        Setting::NgramMinGram | Setting::NgramMaxGram | Setting::MaxTokenLength => match size_named(
            key,
            value,
        ) {
            Ok(n) => Ok(SettingValue::Size(n)),
            Err(e) => Err(e),
        },
        Setting::Language => Ok(SettingValue::Text(lowercased(trimmed(value)))),
        Setting::StopWords => Ok(SettingValue::Words(listed_words(value, ';'))),
        _ => match flag_named(key, value) {
            Ok(b) => Ok(SettingValue::Flag(b)),
            Err(e) => Err(e),
        },
    }
}

/// `config` with one setting changed.
pub open spec fn with_setting(
    config: TokenizerConfigView,
    setting: Setting,
    value: SettingValue,
) -> TokenizerConfigView {
    match (setting, value) {
        (Setting::Tokenizer, SettingValue::Kind(tokenizer)) => TokenizerConfigView {
            tokenizer,
            ..config
        },
        (Setting::NgramMinGram, SettingValue::Size(n)) => TokenizerConfigView {
            ngram_min_gram: n,
            ..config
        },
        (Setting::NgramMaxGram, SettingValue::Size(n)) => TokenizerConfigView {
            ngram_max_gram: n,
            ..config
        },
        (Setting::NgramPrefixOnly, SettingValue::Flag(b)) => TokenizerConfigView {
            ngram_prefix_only: b,
            ..config
        },
        (Setting::JiebaSearchMode, SettingValue::Flag(b)) => TokenizerConfigView {
            jieba_search_mode: b,
            ..config
        },
        (Setting::JiebaOrdinalPosition, SettingValue::Flag(b)) => TokenizerConfigView {
            jieba_ordinal_position: b,
            ..config
        },
        (Setting::LowerCase, SettingValue::Flag(b)) => TokenizerConfigView {
            lower_case: b,
            ..config
        },
        (Setting::MaxTokenLength, SettingValue::Size(n)) => TokenizerConfigView {
            max_token_length: n,
            ..config
        },
        (Setting::AsciiFolding, SettingValue::Flag(b)) => TokenizerConfigView {
            ascii_folding: b,
            ..config
        },
        (Setting::Stem, SettingValue::Flag(b)) => TokenizerConfigView { stem: b, ..config },
        (Setting::Language, SettingValue::Text(language)) => TokenizerConfigView {
            language,
            ..config
        },
        (Setting::RemoveStopWords, SettingValue::Flag(b)) => TokenizerConfigView {
            remove_stop_words: b,
            ..config
        },
        (Setting::StopWords, SettingValue::Words(stop_words)) => TokenizerConfigView {
            stop_words,
            ..config
        },
        (Setting::WithPosition, SettingValue::Flag(b)) => TokenizerConfigView {
            with_position: b,
            ..config
        },
        _ => config,
    }
}

/// `config` after one option. A key that is none of the tokenizer's changes nothing.
pub open spec fn after_option(
    config: TokenizerConfigView,
    raw_key: Seq<char>,
    value: Seq<char>,
) -> Result<TokenizerConfigView, ErrorView> {
    let key = option_key(raw_key);
    match setting_of(key) {
        None => Ok(config),
        Some(setting) => match setting_value(setting, key, value) {
            Ok(v) => Ok(with_setting(config, setting, v)),
            Err(e) => Err(e),
        },
    }
}

/// The default configuration after the first `n` options, one after the other; the first error
/// ends it.
pub open spec fn after_options(entries: Seq<(Seq<char>, Seq<char>)>, n: int) -> Result<
    TokenizerConfigView,
    ErrorView,
>
    decreases n,
{
    if n <= 0 {
        Ok(default_config())
    } else {
        match after_options(entries, n - 1) {
            Err(e) => Err(e),
            Ok(config) => after_option(config, entries[n - 1].0, entries[n - 1].1),
        }
    }
}

/// What is wrong with a configuration, if anything: the first of the four rules that it breaks.
pub open spec fn config_problem(c: TokenizerConfigView) -> Option<ErrorView> {
    if c.ngram_min_gram == 0 {
        Some(
            ErrorView::InvalidOption { key: "ngram.min-gram"@, message: "must be positive"@ },
        )
    } else if c.ngram_max_gram == 0 {
        Some(
            ErrorView::InvalidOption { key: "ngram.max-gram"@, message: "must be positive"@ },
        )
    } else if c.ngram_min_gram > c.ngram_max_gram {
        Some(
            ErrorView::InvalidOption {
                key: "ngram.min-gram"@,
                message: "must not exceed ngram.max-gram"@,
            },
        )
    } else if c.max_token_length == 0 {
        Some(
            ErrorView::InvalidOption { key: "max-token-length"@, message: "must be positive"@ },
        )
    } else {
        None
    }
}

/// What a list of options gives: the configuration, or the error that refuses it.
pub open spec fn configured(entries: Seq<(Seq<char>, Seq<char>)>) -> Result<
    TokenizerConfigView,
    ErrorView,
> {
    match after_options(entries, entries.len() as int) {
        Err(e) => Err(e),
        Ok(config) => match config_problem(config) {
            Some(e) => Err(e),
            None => Ok(config),
        },
    }
}

/// Whether a result is the configuration or the error that the model gives.
pub open spec fn config_result_is(
    r: Result<TokenizerConfig, FtIndexError>,
    expected: Result<TokenizerConfigView, ErrorView>,
) -> bool {
    match (r, expected) {
        (Ok(config), Ok(c)) => config@ == c,
        (Err(e), Err(p)) => e@ == p,
        _ => false,
    }
}

/// The entries by their characters.
pub open spec fn entry_views(entries: Seq<(String, String)>) -> Seq<(Seq<char>, Seq<char>)> {
    entries.map_values(|e: (String, String)| (e.0@, e.1@))
}

/// Whether `entries` holds each entry of the map once, in whatever order.
pub open spec fn lists_entries(
    entries: Seq<(Seq<char>, Seq<char>)>,
    options: Map<Seq<char>, Seq<char>>,
) -> bool {
    &&& forall|i: int, j: int|
        0 <= i < j < entries.len() ==> (#[trigger] entries[i]).0 != (#[trigger] entries[j]).0
    &&& forall|i: int|
        0 <= i < entries.len() ==> options.contains_pair((#[trigger] entries[i]).0, entries[i].1)
    &&& forall|k: Seq<char>| #[trigger]
        options.contains_key(k) ==> exists|i: int|
            0 <= i < entries.len() && (#[trigger] entries[i]).0 == k
}

/// The borrowed entries by their characters.
pub open spec fn borrowed_views(entries: Seq<(&String, &String)>) -> Seq<(Seq<char>, Seq<char>)> {
    entries.map_values(|e: (&String, &String)| (e.0@, e.1@))
}

/// `Vec::from_iter` on a borrowed `HashMap` holds each entry of the map once. The order is that
/// in which the map is walked and may differ from call to call: nothing is claimed of it.
#[verifier::external_body]
fn borrow_entries<'a>(options: &'a HashMap<String, String>) -> (r: Vec<(&'a String, &'a String)>)
    ensures
        lists_entries(borrowed_views(r@), options.deep_view()),
{
    Vec::from_iter(options)
}

/// The entries of a map, in the order in which it is walked.
pub(crate) fn option_entries(options: &HashMap<String, String>) -> (r: Vec<(String, String)>)
    ensures
        lists_entries(entry_views(r@), options.deep_view()),
{
    let borrowed = borrow_entries(options);
    let mut out: Vec<(String, String)> = Vec::new();
    let mut i: usize = 0;
    while i < borrowed.len()
        invariant
            i <= borrowed.len(),
            entry_views(out@) == borrowed_views(borrowed@).take(i as int),
        decreases borrowed.len() - i,
    {
        let ghost before = out@;
        let entry = borrowed[i];
        out.push((entry.0.clone(), entry.1.clone()));
        proof {
            assert(entry_views(out@) =~= entry_views(before).push((entry.0@, entry.1@)));
            assert(borrowed_views(borrowed@).take(i + 1) =~= borrowed_views(borrowed@).take(
                i as int,
            ).push((entry.0@, entry.1@)));
        }
        i = i + 1;
    }
    assert(borrowed_views(borrowed@).take(borrowed@.len() as int) =~= borrowed_views(borrowed@));
    out
}

/// A copy of the entries.
pub(crate) fn clone_entries(entries: &Vec<(String, String)>) -> (r: Vec<(String, String)>)
    ensures
        entry_views(r@) == entry_views(entries@),
{
    let mut out: Vec<(String, String)> = Vec::new();
    let mut i: usize = 0;
    while i < entries.len()
        invariant
            i <= entries.len(),
            entry_views(out@) == entry_views(entries@).take(i as int),
        decreases entries.len() - i,
    {
        let ghost before = out@;
        out.push((entries[i].0.clone(), entries[i].1.clone()));
        proof {
            let entry = (entries@[i as int].0@, entries@[i as int].1@);
            assert(entry_views(out@) =~= entry_views(before).push(entry));
            assert(entry_views(entries@).take(i + 1) =~= entry_views(entries@).take(i as int).push(
                entry,
            ));
        }
        i = i + 1;
    }
    assert(entry_views(entries@).take(entries@.len() as int) =~= entry_views(entries@));
    out
}

fn invalid<T>(key: &str, message: &str) -> (r: Result<T, FtIndexError>)
    ensures
        r matches Err(e) && e@ == (ErrorView::InvalidOption { key: key@, message: message@ }),
{
    Err(FtIndexError::InvalidOption { key: key.to_owned(), message: message.to_owned() })
}

/// The tokenizer that `value` names.
pub fn parse_tokenizer(value: &str) -> (r: Result<TokenizerKind, FtIndexError>)
    ensures
        match (r, tokenizer_named(value@)) {
            (Ok(kind), Ok(k)) => kind == k,
            (Err(e), Err(p)) => e@ == p,
            _ => false,
        },
{
    let name = value.trim().to_lowercase();
    let name = name.as_str();
    if same_text(name, "default") {
        Ok(TokenizerKind::Default)
    } else if same_text(name, "simple") {
        Ok(TokenizerKind::Simple)
    } else if same_text(name, "whitespace") {
        Ok(TokenizerKind::Whitespace)
    } else if same_text(name, "raw") {
        Ok(TokenizerKind::Raw)
    } else if same_text(name, "ngram") {
        Ok(TokenizerKind::Ngram)
    } else if same_text(name, "jieba") {
        Ok(TokenizerKind::Jieba)
    } else {
        let message = join("unsupported tokenizer '", name, "'");
        Err(FtIndexError::InvalidOption { key: "tokenizer".to_owned(), message })
    }
}

/// The number that the option `key` has as its value.
pub fn parse_usize(key: &str, value: &str) -> (r: Result<usize, FtIndexError>)
    ensures
        match (r, size_named(key@, value@)) {
            (Ok(n), Ok(m)) => n == m,
            (Err(e), Err(p)) => e@ == p,
            _ => false,
        },
{
    match parse_unsigned(value.trim()) {
        Some(n) => Ok(n),
        None => {
            let message = join("expected unsigned integer, got '", value, "'");
            Err(FtIndexError::InvalidOption { key: key.to_owned(), message })
        },
    }
}

/// The truth value that the option `key` has as its value.
pub fn parse_bool(key: &str, value: &str) -> (r: Result<bool, FtIndexError>)
    ensures
        match (r, flag_named(key@, value@)) {
            (Ok(b), Ok(c)) => b == c,
            (Err(e), Err(p)) => e@ == p,
            _ => false,
        },
{
    let name = value.trim().to_lowercase();
    let name = name.as_str();
    if same_text(name, "true") {
        Ok(true)
    } else if same_text(name, "false") {
        Ok(false)
    } else {
        let message = join("expected boolean, got '", value, "'");
        Err(FtIndexError::InvalidOption { key: key.to_owned(), message })
    }
}

/// An option's key without its prefix.
pub fn strip_option_prefix(raw: &str) -> (key: &str)
    ensures
        key@ == option_key(raw@),
{
    match strip_prefix(raw, "fulltext.") {
        Some(rest) => rest,
        None => match strip_prefix(raw, "tantivy.") {
            Some(rest) => rest,
            None => raw,
        },
    }
}

/// What the key sets.
pub fn find_setting(key: &str) -> (r: Option<Setting>)
    ensures
        r == setting_of(key@),
{
    if same_text(key, "tokenizer") {
        Some(Setting::Tokenizer)
    } else if same_text(key, "ngram.min-gram") {
        Some(Setting::NgramMinGram)
    } else if same_text(key, "ngram.max-gram") {
        Some(Setting::NgramMaxGram)
    } else if same_text(key, "ngram.prefix-only") {
        Some(Setting::NgramPrefixOnly)
    } else if same_text(key, "jieba.search-mode") {
        Some(Setting::JiebaSearchMode)
    } else if same_text(key, "jieba.ordinal-position") || same_text(
        key,
        "jieba.ordinal-position-mode",
    ) {
        Some(Setting::JiebaOrdinalPosition)
    } else if same_text(key, "lower-case") {
        Some(Setting::LowerCase)
    } else if same_text(key, "max-token-length") {
        Some(Setting::MaxTokenLength)
    } else if same_text(key, "ascii-folding") {
        Some(Setting::AsciiFolding)
    } else if same_text(key, "stem") {
        Some(Setting::Stem)
    } else if same_text(key, "language") {
        Some(Setting::Language)
    } else if same_text(key, "remove-stop-words") {
        Some(Setting::RemoveStopWords)
    } else if same_text(key, "stop-words") {
        Some(Setting::StopWords)
    } else if same_text(key, "with-position") {
        Some(Setting::WithPosition)
    } else {
        None
    }
}

impl TokenizerConfig {
    /// The configuration that the options give. Where two options set the same thing, the one that
    /// the map yields last stands.
    pub fn from_options(options: &HashMap<String, String>) -> (r: Result<Self, FtIndexError>)
        ensures
            exists|entries: Seq<(Seq<char>, Seq<char>)>|
                #![trigger configured(entries)]
                lists_entries(entries, options.deep_view()) && config_result_is(
                    r,
                    configured(entries),
                ),
    {
        let entries = option_entries(options);
        Self::from_entries(&entries)
    }

    /// The configuration that the options give, taken one after the other.
    pub fn from_entries(entries: &Vec<(String, String)>) -> (r: Result<Self, FtIndexError>)
        ensures
            config_result_is(r, configured(entry_views(entries@))),
    {
        let mut config = TokenizerConfig::default();
        let ghost views = entry_views(entries@);
        let mut i: usize = 0;
        while i < entries.len()
            invariant
                i <= entries.len(),
                views == entry_views(entries@),
                after_options(views, i as int) == Ok::<TokenizerConfigView, ErrorView>(config@),
            decreases entries.len() - i,
        {
            let raw_key = entries[i].0.as_str();
            let value = entries[i].1.as_str();
            assert(views[i as int] == (raw_key@, value@));
            assert(after_options(views, i + 1) == after_option(config@, raw_key@, value@));
            match config.set_option(raw_key, value) {
                Ok(_) => {},
                Err(e) => {
                    proof {
                        after_options_fails(views, i + 1, views.len() as int);
                    }
                    return Err(e);
                },
            }
            i = i + 1;
        }
        match config.validate() {
            Ok(_) => Ok(config),
            Err(e) => Err(e),
        }
    }

    /// Sets what one option sets, or leaves the configuration as it was and says what is wrong
    /// with the option's value.
    pub fn set_option(&mut self, raw_key: &str, value: &str) -> (r: Result<(), FtIndexError>)
        ensures
            match (r, after_option(old(self)@, raw_key@, value@)) {
                (Ok(_), Ok(config)) => final(self)@ == config,
                (Err(e), Err(p)) => e@ == p && *final(self) == *old(self),
                _ => false,
            },
    {
        let key = strip_option_prefix(raw_key);
        let setting = match find_setting(key) {
            Some(setting) => setting,
            None => {
                return Ok(());
            },
        };
        match setting {
            Setting::Tokenizer => match parse_tokenizer(value) {
                Ok(kind) => {
                    self.tokenizer = kind;
                },
                Err(e) => {
                    return Err(e);
                },
            },
            Setting::NgramMinGram | Setting::NgramMaxGram | Setting::MaxTokenLength => {
                match parse_usize(key, value) {
                    Ok(n) => match setting {
                        Setting::NgramMinGram => {
                            self.ngram_min_gram = n;
                        },
                        Setting::NgramMaxGram => {
                            self.ngram_max_gram = n;
                        },
                        _ => {
                            self.max_token_length = n;
                        },
                    },
                    Err(e) => {
                        return Err(e);
                    },
                }
            },
            Setting::Language => {
                self.language = value.trim().to_lowercase();
            },
            Setting::StopWords => {
                self.stop_words = list_words(value, ';');
            },
            _ => match parse_bool(key, value) {
                Ok(b) => {
                    self.set_flag(setting, b);
                },
                Err(e) => {
                    return Err(e);
                },
            },
        }
        Ok(())
    }

    fn set_flag(&mut self, setting: Setting, b: bool)
        ensures
            final(self)@ == with_setting(old(self)@, setting, SettingValue::Flag(b)),
    {
        match setting {
            Setting::NgramPrefixOnly => {
                self.ngram_prefix_only = b;
            },
            Setting::JiebaSearchMode => {
                self.jieba_search_mode = b;
            },
            Setting::JiebaOrdinalPosition => {
                self.jieba_ordinal_position = b;
            },
            Setting::LowerCase => {
                self.lower_case = b;
            },
            Setting::AsciiFolding => {
                self.ascii_folding = b;
            },
            Setting::Stem => {
                self.stem = b;
            },
            Setting::RemoveStopWords => {
                self.remove_stop_words = b;
            },
            Setting::WithPosition => {
                self.with_position = b;
            },
            _ => {},
        }
    }

    /// Refuses a configuration that no index can be built with.
    pub fn validate(&self) -> (r: Result<(), FtIndexError>)
        ensures
            unit_result_is(r, config_problem(self@)),
    {
        if self.ngram_min_gram == 0 {
            return invalid("ngram.min-gram", "must be positive");
        }
        if self.ngram_max_gram == 0 {
            return invalid("ngram.max-gram", "must be positive");
        }
        if self.ngram_min_gram > self.ngram_max_gram {
            return invalid("ngram.min-gram", "must not exceed ngram.max-gram");
        }
        if self.max_token_length == 0 {
            return invalid("max-token-length", "must be positive");
        }
        Ok(())
    }
}

/// An error stays: further options do not change it.
proof fn after_options_fails(entries: Seq<(Seq<char>, Seq<char>)>, n: int, m: int)
    requires
        n <= m,
        after_options(entries, n) is Err,
    ensures
        after_options(entries, m) == after_options(entries, n),
    decreases m - n,
{
    if n < m {
        after_options_fails(entries, n, m - 1);
    }
}

/// The model of a configuration shows all that it holds.
pub proof fn model_shows_what_settings_hold(config: TokenizerConfig, i: int)
    ensures
        config@.tokenizer == config.tokenizer,
        config@.ngram_min_gram == config.ngram_min_gram,
        config@.ngram_max_gram == config.ngram_max_gram,
        config@.ngram_prefix_only == config.ngram_prefix_only,
        config@.jieba_search_mode == config.jieba_search_mode,
        config@.jieba_ordinal_position == config.jieba_ordinal_position,
        config@.lower_case == config.lower_case,
        config@.max_token_length == config.max_token_length,
        config@.ascii_folding == config.ascii_folding,
        config@.stem == config.stem,
        config@.language == config.language@,
        config@.remove_stop_words == config.remove_stop_words,
        config@.stop_words.len() == config.stop_words@.len(),
        0 <= i < config.stop_words@.len() ==> config@.stop_words[i] == config.stop_words@[i]@,
        config@.with_position == config.with_position,
{
}

/// The model of a list of entries shows each of them in its place, the key as the key and the value
/// as the value.
pub proof fn model_shows_the_entries(entries: Seq<(String, String)>, i: int)
    requires
        0 <= i < entries.len(),
    ensures
        entry_views(entries).len() == entries.len(),
        entry_views(entries)[i] == (entries[i].0@, entries[i].1@),
{
}

} // verus!

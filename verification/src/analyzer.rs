//! The text analyzer: the stages that a tokenizer configuration calls for, and what they make of a
//! text.
use crate::error::{join, joined, ErrorView, FtIndexError};
use crate::greek::{breaks_greek_stemmer, can_break_greek_stemmer};
use crate::text::{ascii_lowercase, lowercased, same_text, text_views, trimmed};
use crate::tokenizer::{clone_texts, TokenizerConfig, TokenizerConfigView, TokenizerKind};
use tantivy::tokenizer::{
    AsciiFoldingFilter, Language, LowerCaser, NgramTokenizer, RawTokenizer, RemoveLongFilter,
    SimpleTokenizer, Stemmer, StopWordFilter, TextAnalyzer, TextAnalyzerBuilder, WhitespaceTokenizer,
};
use tantivy_jieba::JiebaTokenizer;
use vstd::prelude::*;
use vstd::utf8::encode_utf8;

verus! {

/// tantivy's languages. The type is known by its variants, which hold no fields.
#[verifier::external_type_specification]
pub struct ExLanguage(Language);

/// tantivy's analyzer, a tokenizer with the filters that follow it.
#[verifier::external_type_specification]
#[verifier::external_body]
pub struct ExTextAnalyzer(TextAnalyzer);

/// tantivy's builder of an analyzer.
#[verifier::external_body]
pub struct AnalyzerBuilder {
    inner: TextAnalyzerBuilder,
}

/// One stage of an analyzer: a tokenizer, which stands first, or a filter.
pub enum Stage {
    Simple,
    Whitespace,
    Raw,
    Ngram { min_gram: usize, max_gram: usize, prefix_only: bool },
    Jieba { search_mode: bool, ordinal_position: bool },
    RemoveLong(usize),
    LowerCase,
    Stem(Language),
    StopWordsOf(Language),
    StopWords(Seq<Seq<char>>),
    AsciiFolding,
}

/// The stages that a builder holds, in the order in which a text passes them.
pub uninterp spec fn builder_stages(builder: AnalyzerBuilder) -> Seq<Stage>;

/// The stages that an analyzer holds, in the order in which a text passes them.
pub uninterp spec fn analyzer_stages(analyzer: TextAnalyzer) -> Seq<Stage>;

/// Whether a character beyond ASCII is a letter or a digit, as `char::is_alphanumeric` has it.
pub uninterp spec fn alphanumeric_beyond_ascii(c: char) -> bool;

/// The tokens that `JiebaTokenizer` cuts a text into, in search mode or not.
pub uninterp spec fn jieba_tokens(search_mode: bool, text: Seq<char>) -> Seq<Seq<char>>;

/// What `LowerCaser` makes of a character beyond ASCII: its small letters, as `char::to_lowercase`
/// has them.
pub uninterp spec fn small_letters_beyond_ascii(c: char) -> Seq<char>;

/// What `Stemmer` makes of a token of a language.
pub uninterp spec fn stemmed(language: Language, token: Seq<char>) -> Seq<char>;

/// The words that `StopWordFilter::new` removes for a language.
pub uninterp spec fn stop_words_of(language: Language) -> Set<Seq<char>>;

/// What `AsciiFoldingFilter` makes of a character beyond ASCII.
pub uninterp spec fn folded_beyond_ascii(c: char) -> Seq<char>;

/// What the stages know of characters, words and languages.
#[verifier::ext_equal]
pub struct Lexicon {
    pub alphanumeric: spec_fn(char) -> bool,
    pub jieba: spec_fn(bool, Seq<char>) -> Seq<Seq<char>>,
    pub lower_case: spec_fn(char) -> Seq<char>,
    pub stem: spec_fn(Language, Seq<char>) -> Seq<char>,
    pub stop_words: spec_fn(Language) -> Set<Seq<char>>,
    pub fold: spec_fn(char) -> Seq<char>,
}

/// The lexicon of the tokenizers and filters that this library uses.
pub open spec fn lexicon() -> Lexicon {
    Lexicon {
        alphanumeric: |c: char| alphanumeric_beyond_ascii(c),
        jieba: |search_mode: bool, text: Seq<char>| jieba_tokens(search_mode, text),
        lower_case: |c: char| small_letters_beyond_ascii(c),
        stem: |language: Language, token: Seq<char>| stemmed(language, token),
        stop_words: |language: Language| stop_words_of(language),
        fold: |c: char| folded_beyond_ascii(c),
    }
}

/// Whether a character is a letter or a digit.
pub open spec fn is_alphanumeric(lex: Lexicon, c: char) -> bool {
    if (c as u32) < 0x80 {
        'a' <= c <= 'z' || 'A' <= c <= 'Z' || '0' <= c <= '9'
    } else {
        (lex.alphanumeric)(c)
    }
}

/// Whether a character is one of the five white-space characters of ASCII: a space, a tab, a line
/// feed, a form feed or a carriage return.
pub open spec fn is_ascii_white_space(c: char) -> bool {
    let n = c as u32;
    n == 0x20 || n == 0x09 || n == 0x0a || n == 0x0c || n == 0x0d
}

/// The longest pieces of `text` that consist of characters to keep.
pub open spec fn kept_runs(text: Seq<char>, keep: spec_fn(char) -> bool) -> Seq<Seq<char>>
    decreases text.len(),
{
    if text.len() == 0 {
        Seq::empty()
    } else {
        let before = kept_runs(text.drop_last(), keep);
        if !keep(text.last()) {
            before
        } else if text.len() > 1 && keep(text[text.len() - 2]) {
            before.drop_last().push(before.last().push(text.last()))
        } else {
            before.push(seq![text.last()])
        }
    }
}

/// The pieces of `text` that start at `start`, of the lengths `len` to `max`, shortest first.
pub open spec fn grams_at(text: Seq<char>, start: int, len: int, max: int) -> Seq<Seq<char>>
    decreases max - len + 1,
{
    if len > max || start + len > text.len() {
        Seq::empty()
    } else {
        seq![text.subrange(start, start + len)] + grams_at(text, start, len + 1, max)
    }
}

/// The pieces of `text` of the lengths `min` to `max` that start at `start` or later, or at `start`
/// only.
pub open spec fn grams_from(
    text: Seq<char>,
    start: int,
    min: int,
    max: int,
    prefix_only: bool,
) -> Seq<Seq<char>>
    decreases text.len() - start,
{
    if start >= text.len() {
        Seq::empty()
    } else if prefix_only {
        grams_at(text, start, min, max)
    } else {
        grams_at(text, start, min, max) + grams_from(text, start + 1, min, max, prefix_only)
    }
}

/// What a tokenizer cuts a text into.
pub open spec fn cut(lex: Lexicon, tokenizer: Stage, text: Seq<char>) -> Seq<Seq<char>> {
    match tokenizer {
        Stage::Simple => kept_runs(text, |c: char| is_alphanumeric(lex, c)),
        Stage::Whitespace => kept_runs(text, |c: char| !is_ascii_white_space(c)),
        Stage::Raw => seq![text],
        Stage::Ngram { min_gram, max_gram, prefix_only } => grams_from(
            text,
            0,
            min_gram as int,
            max_gram as int,
            prefix_only,
        ),
        Stage::Jieba { search_mode, .. } => (lex.jieba)(search_mode, text),
        _ => Seq::empty(),
    }
}

/// A text in which each character is replaced by characters.
pub open spec fn each_replaced(text: Seq<char>, f: spec_fn(char) -> Seq<char>) -> Seq<char>
    decreases text.len(),
{
    if text.len() == 0 {
        Seq::empty()
    } else {
        each_replaced(text.drop_last(), f) + f(text.last())
    }
}

/// What `LowerCaser` makes of a token.
pub open spec fn lower_cased(lex: Lexicon, token: Seq<char>) -> Seq<char> {
    each_replaced(
        token,
        |c: char|
            if (c as u32) < 0x80 {
                seq![ascii_lowercase(c)]
            } else {
                (lex.lower_case)(c)
            },
    )
}

/// What `AsciiFoldingFilter` makes of a token.
pub open spec fn ascii_folded(lex: Lexicon, token: Seq<char>) -> Seq<char> {
    each_replaced(
        token,
        |c: char|
            if (c as u32) < 0x80 {
                seq![c]
            } else {
                (lex.fold)(c)
            },
    )
}

/// What a filter makes of the tokens that reach it: it leaves some out, or changes each.
pub open spec fn filtered(lex: Lexicon, filter: Stage, tokens: Seq<Seq<char>>) -> Seq<Seq<char>> {
    match filter {
        Stage::RemoveLong(limit) => tokens.filter(|t: Seq<char>| encode_utf8(t).len() < limit),
        Stage::LowerCase => tokens.map_values(|t: Seq<char>| lower_cased(lex, t)),
        Stage::Stem(language) => tokens.map_values(|t: Seq<char>| (lex.stem)(language, t)),
        Stage::StopWordsOf(language) => tokens.filter(
            |t: Seq<char>| !(lex.stop_words)(language).contains(t),
        ),
        Stage::StopWords(words) => tokens.filter(|t: Seq<char>| !words.contains(t)),
        Stage::AsciiFolding => tokens.map_values(|t: Seq<char>| ascii_folded(lex, t)),
        _ => tokens,
    }
}

/// The tokens of a text: what the first stage cuts it into, passed through the filters behind it.
pub open spec fn analyzed(lex: Lexicon, stages: Seq<Stage>, text: Seq<char>) -> Seq<Seq<char>>
    decreases stages.len(),
{
    if stages.len() == 0 {
        Seq::empty()
    } else if stages.len() == 1 {
        cut(lex, stages[0], text)
    } else {
        filtered(lex, stages.last(), analyzed(lex, stages.drop_last(), text))
    }
}

/// Whether the Greek stemmer can be run on each of the tokens.
pub open spec fn all_stem(tokens: Seq<Seq<char>>) -> bool {
    forall|k: int| 0 <= k < tokens.len() ==> !breaks_greek_stemmer(#[trigger] tokens[k])
}

/// Whether a text can be passed through the stages. The longest gram of an n-gram tokenizer, which
/// adds one to it, must be below the largest `usize`, and no token that reaches the Greek stemmer
/// may be one on which it panics.
pub open spec fn can_run(lex: Lexicon, stages: Seq<Stage>, text: Seq<char>) -> bool {
    forall|i: int|
        0 <= i < stages.len() ==> match #[trigger] stages[i] {
            Stage::Ngram { max_gram, .. } => max_gram < usize::MAX,
            Stage::Stem(language) => language == Language::Greek ==> all_stem(
                analyzed(lex, stages.take(i), text),
            ),
            _ => true,
        }
}

/// `SimpleTokenizer` as the first stage of an analyzer.
#[verifier::external_body]
fn start_simple() -> (r: AnalyzerBuilder)
    ensures
        builder_stages(r) == seq![Stage::Simple],
{
    AnalyzerBuilder { inner: TextAnalyzer::builder(SimpleTokenizer::default()).dynamic() }
}

/// `WhitespaceTokenizer` as the first stage of an analyzer.
#[verifier::external_body]
fn start_whitespace() -> (r: AnalyzerBuilder)
    ensures
        builder_stages(r) == seq![Stage::Whitespace],
{
    AnalyzerBuilder { inner: TextAnalyzer::builder(WhitespaceTokenizer::default()).dynamic() }
}

/// `RawTokenizer` as the first stage of an analyzer.
#[verifier::external_body]
fn start_raw() -> (r: AnalyzerBuilder)
    ensures
        builder_stages(r) == seq![Stage::Raw],
{
    AnalyzerBuilder { inner: TextAnalyzer::builder(RawTokenizer::default()).dynamic() }
}

/// Why `NgramTokenizer::new` refuses its grams, if it does.
pub open spec fn ngram_problem(min_gram: usize, max_gram: usize) -> Option<Seq<char>> {
    if min_gram == 0 {
        Some("An invalid argument was passed: 'min_gram must be greater than 0'"@)
    } else if min_gram > max_gram {
        Some("An invalid argument was passed: 'min_gram must not be greater than max_gram'"@)
    } else {
        None
    }
}

/// `NgramTokenizer` as the first stage of an analyzer. `NgramTokenizer::new` refuses a shortest
/// gram of zero, and one that is longer than the longest.
#[verifier::external_body]
fn start_ngram(min_gram: usize, max_gram: usize, prefix_only: bool) -> (r: Result<
    AnalyzerBuilder,
    String,
>)
    ensures
        match (r, ngram_problem(min_gram, max_gram)) {
            (Ok(b), None) => builder_stages(b) == seq![
                Stage::Ngram { min_gram, max_gram, prefix_only },
            ],
            (Err(message), Some(p)) => message@ == p,
            _ => false,
        },
{
    match NgramTokenizer::new(min_gram, max_gram, prefix_only) {
        Ok(tokenizer) => Ok(AnalyzerBuilder { inner: TextAnalyzer::builder(tokenizer).dynamic() }),
        Err(e) => Err(e.to_string()),
    }
}

/// `JiebaTokenizer`, with the two modes set, as the first stage of an analyzer.
#[verifier::external_body]
fn start_jieba(search_mode: bool, ordinal_position: bool) -> (r: AnalyzerBuilder)
    ensures
        builder_stages(r) == seq![Stage::Jieba { search_mode, ordinal_position }],
{
    let mut tokenizer = JiebaTokenizer::with_search_mode(search_mode);
    tokenizer.set_ordinal_position_mode(ordinal_position);
    AnalyzerBuilder { inner: TextAnalyzer::builder(tokenizer).dynamic() }
}

/// `RemoveLongFilter` as a further stage.
#[verifier::external_body]
fn then_remove_long(builder: AnalyzerBuilder, limit: usize) -> (r: AnalyzerBuilder)
    ensures
        builder_stages(r) == builder_stages(builder).push(Stage::RemoveLong(limit)),
{
    AnalyzerBuilder { inner: builder.inner.filter_dynamic(RemoveLongFilter::limit(limit)) }
}

/// `LowerCaser` as a further stage.
#[verifier::external_body]
fn then_lower_case(builder: AnalyzerBuilder) -> (r: AnalyzerBuilder)
    ensures
        builder_stages(r) == builder_stages(builder).push(Stage::LowerCase),
{
    AnalyzerBuilder { inner: builder.inner.filter_dynamic(LowerCaser) }
}

/// `Stemmer` for a language as a further stage.
#[verifier::external_body]
fn then_stem(builder: AnalyzerBuilder, language: Language) -> (r: AnalyzerBuilder)
    ensures
        builder_stages(r) == builder_stages(builder).push(Stage::Stem(language)),
{
    AnalyzerBuilder { inner: builder.inner.filter_dynamic(Stemmer::new(language)) }
}

/// Whether `StopWordFilter::new` has a list of stop words for the language.
pub open spec fn has_stop_words(language: Language) -> bool {
    match language {
        Language::Arabic
        | Language::Greek
        | Language::Romanian
        | Language::Tamil
        | Language::Turkish => false,
        _ => true,
    }
}

/// `StopWordFilter::new` for a language as a further stage, where there is a list of stop words for
/// the language; the flag says whether there is.
#[verifier::external_body]
fn then_remove_stop_words_of(builder: AnalyzerBuilder, language: Language) -> (r: (
    AnalyzerBuilder,
    bool,
))
    ensures
        r.1 == has_stop_words(language),
        builder_stages(r.0) == (if r.1 {
            builder_stages(builder).push(Stage::StopWordsOf(language))
        } else {
            builder_stages(builder)
        }),
{
    match StopWordFilter::new(language) {
        Some(filter) => (AnalyzerBuilder { inner: builder.inner.filter_dynamic(filter) }, true),
        None => (builder, false),
    }
}

/// `StopWordFilter::remove` for the words as a further stage.
#[verifier::external_body]
fn then_remove_words(builder: AnalyzerBuilder, words: Vec<String>) -> (r: AnalyzerBuilder)
    ensures
        builder_stages(r) == builder_stages(builder).push(Stage::StopWords(text_views(words@))),
{
    AnalyzerBuilder { inner: builder.inner.filter_dynamic(StopWordFilter::remove(words)) }
}

/// `AsciiFoldingFilter` as a further stage.
#[verifier::external_body]
fn then_ascii_folding(builder: AnalyzerBuilder) -> (r: AnalyzerBuilder)
    ensures
        builder_stages(r) == builder_stages(builder).push(Stage::AsciiFolding),
{
    AnalyzerBuilder { inner: builder.inner.filter_dynamic(AsciiFoldingFilter) }
}

/// `TextAnalyzerBuilder::build`: an analyzer with the builder's stages.
#[verifier::external_body]
fn finish(builder: AnalyzerBuilder) -> (r: TextAnalyzer)
    ensures
        analyzer_stages(r) == builder_stages(builder),
{
    builder.inner.build()
}

/// The texts of the tokens that `TextAnalyzer::token_stream` yields: what the analyzer's tokenizer
/// cuts the text into, passed through its filters in their order. It panics where the text cannot be
/// passed through them.
#[verifier::external_body]
fn token_texts(analyzer: &TextAnalyzer, text: &str) -> (r: Vec<String>)
    requires
        can_run(lexicon(), analyzer_stages(*analyzer), text@),
    ensures
        text_views(r@) == analyzed(
            (Lexicon {
                alphanumeric: |c: char| alphanumeric_beyond_ascii(c),
                jieba: |search_mode: bool, text: Seq<char>| jieba_tokens(search_mode, text),
                lower_case: |c: char| small_letters_beyond_ascii(c),
                stem: |language: Language, token: Seq<char>| stemmed(language, token),
                stop_words: |language: Language| stop_words_of(language),
                fold: |c: char| folded_beyond_ascii(c),
            }),
            analyzer_stages(*analyzer),
            text@,
        ),
{
    let mut tokens = Vec::new();
    analyzer.clone().token_stream(text).process(&mut |token| tokens.push(token.text.clone()));
    tokens
}

/// The language that a text names, in any case and with space around it: by its English name or,
/// for some, by its two-letter code.
pub open spec fn language_named(language: Seq<char>) -> Result<Language, ErrorView> {
    let name = lowercased(trimmed(language));
    if name == "arabic"@ {
        Ok(Language::Arabic)
    } else if name == "danish"@ {
        Ok(Language::Danish)
    } else if name == "dutch"@ {
        Ok(Language::Dutch)
    } else if name == "english"@ || name == "en"@ {
        Ok(Language::English)
    } else if name == "finnish"@ {
        Ok(Language::Finnish)
    } else if name == "french"@ || name == "fr"@ {
        Ok(Language::French)
    } else if name == "german"@ || name == "de"@ {
        Ok(Language::German)
    } else if name == "greek"@ {
        Ok(Language::Greek)
    } else if name == "hungarian"@ {
        Ok(Language::Hungarian)
    } else if name == "italian"@ || name == "it"@ {
        Ok(Language::Italian)
    } else if name == "norwegian"@ {
        Ok(Language::Norwegian)
    } else if name == "portuguese"@ || name == "pt"@ {
        Ok(Language::Portuguese)
    } else if name == "romanian"@ {
        Ok(Language::Romanian)
    } else if name == "russian"@ || name == "ru"@ {
        Ok(Language::Russian)
    } else if name == "spanish"@ || name == "es"@ {
        Ok(Language::Spanish)
    } else if name == "swedish"@ {
        Ok(Language::Swedish)
    } else if name == "tamil"@ {
        Ok(Language::Tamil)
    } else if name == "turkish"@ {
        Ok(Language::Turkish)
    } else {
        Err(
            ErrorView::InvalidOption {
                key: "language"@,
                message: joined("unsupported tokenizer language '"@, name, "'"@),
            },
        )
    }
}

/// The language that a text names.
pub fn parse_language(language: &str) -> (r: Result<Language, FtIndexError>)
    ensures
        match (r, language_named(language@)) {
            (Ok(l), Ok(m)) => l == m,
            (Err(e), Err(p)) => e@ == p,
            _ => false,
        },
{
    let name = language.trim().to_lowercase();
    let name = name.as_str();
    if same_text(name, "arabic") {
        Ok(Language::Arabic)
    } else if same_text(name, "danish") {
        Ok(Language::Danish)
    } else if same_text(name, "dutch") {
        Ok(Language::Dutch)
    } else if same_text(name, "english") || same_text(name, "en") {
        Ok(Language::English)
    } else if same_text(name, "finnish") {
        Ok(Language::Finnish)
    } else if same_text(name, "french") || same_text(name, "fr") {
        Ok(Language::French)
    } else if same_text(name, "german") || same_text(name, "de") {
        Ok(Language::German)
    } else if same_text(name, "greek") {
        Ok(Language::Greek)
    } else if same_text(name, "hungarian") {
        Ok(Language::Hungarian)
    } else if same_text(name, "italian") || same_text(name, "it") {
        Ok(Language::Italian)
    } else if same_text(name, "norwegian") {
        Ok(Language::Norwegian)
    } else if same_text(name, "portuguese") || same_text(name, "pt") {
        Ok(Language::Portuguese)
    } else if same_text(name, "romanian") {
        Ok(Language::Romanian)
    } else if same_text(name, "russian") || same_text(name, "ru") {
        Ok(Language::Russian)
    } else if same_text(name, "spanish") || same_text(name, "es") {
        Ok(Language::Spanish)
    } else if same_text(name, "swedish") {
        Ok(Language::Swedish)
    } else if same_text(name, "tamil") {
        Ok(Language::Tamil)
    } else if same_text(name, "turkish") {
        Ok(Language::Turkish)
    } else {
        let message = join("unsupported tokenizer language '", name, "'");
        Err(FtIndexError::InvalidOption { key: "language".to_owned(), message })
    }
}

/// The name under which a tokenizer of this kind is registered with an index.
pub open spec fn registered_name(kind: TokenizerKind) -> Seq<char> {
    match kind {
        TokenizerKind::Ngram => "paimon_ngram"@,
        TokenizerKind::Jieba => "paimon_jieba"@,
        _ => "paimon_custom"@,
    }
}

/// The name under which the tokenizer of a configuration is registered with an index.
pub fn tokenizer_name(config: &TokenizerConfig) -> (r: &'static str)
    ensures
        r@ == registered_name(config@.tokenizer),
{
    match config.tokenizer {
        TokenizerKind::Default | TokenizerKind::Simple => "paimon_custom",
        TokenizerKind::Whitespace => "paimon_custom",
        TokenizerKind::Raw => "paimon_custom",
        TokenizerKind::Ngram => "paimon_ngram",
        TokenizerKind::Jieba => "paimon_jieba",
    }
}

/// The stage that cuts a text into tokens.
pub open spec fn tokenizer_stage(c: TokenizerConfigView) -> Result<Stage, ErrorView> {
    match c.tokenizer {
        TokenizerKind::Default | TokenizerKind::Simple => Ok(Stage::Simple),
        TokenizerKind::Whitespace => Ok(Stage::Whitespace),
        TokenizerKind::Raw => Ok(Stage::Raw),
        TokenizerKind::Ngram => match ngram_problem(c.ngram_min_gram, c.ngram_max_gram) {
            None => Ok(
                Stage::Ngram {
                    min_gram: c.ngram_min_gram,
                    max_gram: c.ngram_max_gram,
                    prefix_only: c.ngram_prefix_only,
                },
            ),
            Some(message) => Err(ErrorView::InvalidOption { key: "ngram"@, message }),
        },
        TokenizerKind::Jieba => Ok(
            Stage::Jieba {
                search_mode: c.jieba_search_mode,
                ordinal_position: c.jieba_ordinal_position,
            },
        ),
    }
}

/// The stages that change the letters of a token: lower case and stemming.
pub open spec fn letter_stages(c: TokenizerConfigView) -> Result<Seq<Stage>, ErrorView> {
    let lower_case = if c.lower_case {
        seq![Stage::LowerCase]
    } else {
        Seq::empty()
    };
    if c.stem {
        match language_named(c.language) {
            Ok(language) => Ok(lower_case.push(Stage::Stem(language))),
            Err(e) => Err(e),
        }
    } else {
        Ok(lower_case)
    }
}

/// The stages that leave out stop words: those of the language, if there is a list of them, and
/// those that the configuration lists. There must be at least one.
pub open spec fn stop_word_stages(c: TokenizerConfigView) -> Result<Seq<Stage>, ErrorView> {
    if !c.remove_stop_words {
        Ok(Seq::empty())
    } else {
        match language_named(c.language) {
            Err(e) => Err(e),
            Ok(language) => {
                let listed = if c.stop_words.len() > 0 {
                    seq![Stage::StopWords(c.stop_words)]
                } else {
                    Seq::empty()
                };
                if has_stop_words(language) {
                    Ok(seq![Stage::StopWordsOf(language)] + listed)
                } else if c.stop_words.len() > 0 {
                    Ok(listed)
                } else {
                    Err(
                        ErrorView::InvalidOption {
                            key: "language"@,
                            message: joined(
                                "removing stop words for language '"@,
                                c.language,
                                "' is not supported"@,
                            ),
                        },
                    )
                }
            },
        }
    }
}

/// The stages that a configuration calls for, in their order: the tokenizer, the limit on the
/// length of a token, lower case, stemming, stop words and ASCII folding.
pub open spec fn planned_stages(c: TokenizerConfigView) -> Result<Seq<Stage>, ErrorView> {
    match (tokenizer_stage(c), letter_stages(c), stop_word_stages(c)) {
        (Ok(tokenizer), Ok(letters), Ok(stop_words)) => Ok(
            seq![tokenizer, Stage::RemoveLong(c.max_token_length)] + letters + stop_words + (
            if c.ascii_folding {
                seq![Stage::AsciiFolding]
            } else {
                Seq::empty()
            }),
        ),
        (Err(e), _, _) => Err(e),
        (_, Err(e), _) => Err(e),
        (_, _, Err(e)) => Err(e),
    }
}

/// Whether a result is an analyzer with the stages, or the error, that the model gives.
pub open spec fn analyzer_result_is(
    r: Result<TextAnalyzer, FtIndexError>,
    expected: Result<Seq<Stage>, ErrorView>,
) -> bool {
    match (r, expected) {
        (Ok(analyzer), Ok(stages)) => analyzer_stages(analyzer) == stages,
        (Err(e), Err(p)) => e@ == p,
        _ => false,
    }
}

fn start_tokenizer(config: &TokenizerConfig) -> (r: Result<AnalyzerBuilder, FtIndexError>)
    ensures
        match (r, tokenizer_stage(config@)) {
            (Ok(b), Ok(stage)) => builder_stages(b) == seq![stage],
            (Err(e), Err(p)) => e@ == p,
            _ => false,
        },
{
    match config.tokenizer {
        TokenizerKind::Default | TokenizerKind::Simple => Ok(start_simple()),
        TokenizerKind::Whitespace => Ok(start_whitespace()),
        TokenizerKind::Raw => Ok(start_raw()),
        TokenizerKind::Ngram => match start_ngram(
            config.ngram_min_gram,
            config.ngram_max_gram,
            config.ngram_prefix_only,
        ) {
            Ok(builder) => Ok(builder),
            Err(message) => Err(FtIndexError::InvalidOption { key: "ngram".to_owned(), message }),
        },
        TokenizerKind::Jieba => Ok(
            start_jieba(config.jieba_search_mode, config.jieba_ordinal_position),
        ),
    }
}

fn then_change_letters(builder: AnalyzerBuilder, config: &TokenizerConfig) -> (r: Result<
    AnalyzerBuilder,
    FtIndexError,
>)
    ensures
        match (r, letter_stages(config@)) {
            (Ok(b), Ok(stages)) => builder_stages(b) == builder_stages(builder) + stages,
            (Err(e), Err(p)) => e@ == p,
            _ => false,
        },
{
    let ghost start = builder_stages(builder);
    let mut builder = builder;
    if config.lower_case {
        builder = then_lower_case(builder);
        assert(builder_stages(builder) =~= start + seq![Stage::LowerCase]);
    } else {
        assert(builder_stages(builder) =~= start + Seq::<Stage>::empty());
    }
    if config.stem {
        let ghost before = builder_stages(builder);
        match parse_language(config.language.as_str()) {
            Ok(language) => {
                builder = then_stem(builder, language);
            },
            Err(e) => {
                return Err(e);
            },
        }
        assert(builder_stages(builder) =~= start + letter_stages(config@)->Ok_0);
    }
    Ok(builder)
}

fn then_leave_out_stop_words(builder: AnalyzerBuilder, config: &TokenizerConfig) -> (r: Result<
    AnalyzerBuilder,
    FtIndexError,
>)
    ensures
        match (r, stop_word_stages(config@)) {
            (Ok(b), Ok(stages)) => builder_stages(b) == builder_stages(builder) + stages,
            (Err(e), Err(p)) => e@ == p,
            _ => false,
        },
{
    if !config.remove_stop_words {
        assert(builder_stages(builder) =~= builder_stages(builder) + Seq::<Stage>::empty());
        return Ok(builder);
    }
    let ghost start = builder_stages(builder);
    let language = match parse_language(config.language.as_str()) {
        Ok(language) => language,
        Err(e) => {
            return Err(e);
        },
    };
    let (mut builder, known) = then_remove_stop_words_of(builder, language);
    assert(config@.stop_words.len() == config.stop_words@.len());
    if !known && config.stop_words.is_empty() {
        let message = join(
            "removing stop words for language '",
            config.language.as_str(),
            "' is not supported",
        );
        return Err(FtIndexError::InvalidOption { key: "language".to_owned(), message });
    }
    if !config.stop_words.is_empty() {
        builder = then_remove_words(builder, clone_texts(&config.stop_words));
    }
    assert(builder_stages(builder) =~= start + stop_word_stages(config@)->Ok_0);
    Ok(builder)
}

/// The analyzer that a configuration calls for.
pub fn build_text_analyzer(config: &TokenizerConfig) -> (r: Result<TextAnalyzer, FtIndexError>)
    ensures
        analyzer_result_is(r, planned_stages(config@)),
{
    let builder = match start_tokenizer(config) {
        Ok(builder) => builder,
        Err(e) => {
            return Err(e);
        },
    };
    let builder = then_remove_long(builder, config.max_token_length);
    let ghost start = builder_stages(builder);
    proof {
        assert(start =~= seq![
            tokenizer_stage(config@)->Ok_0,
            Stage::RemoveLong(config@.max_token_length),
        ]);
    }
    let builder = match then_change_letters(builder, config) {
        Ok(builder) => builder,
        Err(e) => {
            return Err(e);
        },
    };
    let mut builder = match then_leave_out_stop_words(builder, config) {
        Ok(builder) => builder,
        Err(e) => {
            return Err(e);
        },
    };
    if config.ascii_folding {
        builder = then_ascii_folding(builder);
    }
    assert(builder_stages(builder) =~= planned_stages(config@)->Ok_0);
    Ok(finish(builder))
}

/// The tokens of a text, in their order.
pub fn analyze_terms(analyzer: &TextAnalyzer, text: &str) -> (r: Vec<String>)
    requires
        can_run(lexicon(), analyzer_stages(*analyzer), text@),
    ensures
        text_views(r@) == analyzed(lexicon(), analyzer_stages(*analyzer), text@),
{
    token_texts(analyzer, text)
}

/// The configuration whose analyzer is that of `c` as far as the stemmer.
pub open spec fn before_stemming(c: TokenizerConfigView) -> TokenizerConfigView {
    TokenizerConfigView { stem: false, remove_stop_words: false, ascii_folding: false, ..c }
}

proof fn stages_before_stemming(c: TokenizerConfigView, i: int)
    requires
        planned_stages(c) is Ok,
        0 <= i < planned_stages(c)->Ok_0.len(),
        planned_stages(c)->Ok_0[i] is Stem,
    ensures
        c.stem,
        language_named(c.language) == Ok::<Language, ErrorView>(
            planned_stages(c)->Ok_0[i]->Stem_0,
        ),
        planned_stages(before_stemming(c)) == Ok::<Seq<Stage>, ErrorView>(
            planned_stages(c)->Ok_0.take(i),
        ),
{
    assert(planned_stages(before_stemming(c))->Ok_0 =~= planned_stages(c)->Ok_0.take(i));
}

/// A configuration can be run on a text unless it stems Greek and a token stands in the way.
proof fn runs_as_tokens_stem(c: TokenizerConfigView, text: Seq<char>)
    requires
        planned_stages(c) is Ok,
        c.tokenizer == TokenizerKind::Ngram ==> c.ngram_max_gram < usize::MAX,
    ensures
        can_run(lexicon(), planned_stages(c)->Ok_0, text) == (c.stem && language_named(c.language)
            == Ok::<Language, ErrorView>(Language::Greek) ==> all_stem(
            analyzed(lexicon(), planned_stages(before_stemming(c))->Ok_0, text),
        )),
{
    let stages = planned_stages(c)->Ok_0;
    let lex = lexicon();
    if c.stem {
        let i: int = if c.lower_case {
            3
        } else {
            2
        };
        assert(stages[i] is Stem);
        stages_before_stemming(c, i);
        assert forall|j: int| 0 <= j < stages.len() && #[trigger] stages[j] is Stem implies j
            == i by {}
    }
    assert forall|j: int| 0 <= j < stages.len() implies match #[trigger] stages[j] {
        Stage::Ngram { max_gram, .. } => max_gram < usize::MAX,
        _ => true,
    } by {}
}

/// Whether the analyzer of a configuration can be run on a text.
pub fn can_analyze(config: &TokenizerConfig, text: &str) -> (r: bool)
    requires
        planned_stages(config@) is Ok,
    ensures
        r == can_run(lexicon(), planned_stages(config@)->Ok_0, text@),
{
    match config.tokenizer {
        TokenizerKind::Ngram => if config.ngram_max_gram == usize::MAX {
            assert(planned_stages(config@)->Ok_0[0] is Ngram);
            return false;
        },
        _ => {},
    }
    proof {
        runs_as_tokens_stem(config@, text@);
    }
    if !config.stem {
        return true;
    }
    match parse_language(config.language.as_str()) {
        Ok(Language::Greek) => {},
        _ => {
            return true;
        },
    }
    let mut before = config.clone();
    before.stem = false;
    before.remove_stop_words = false;
    before.ascii_folding = false;
    assert(before@ == before_stemming(config@));
    let analyzer = match build_text_analyzer(&before) {
        Ok(analyzer) => analyzer,
        Err(_) => {
            return true;
        },
    };
    proof {
        runs_as_tokens_stem(before@, text@);
    }
    let tokens = analyze_terms(&analyzer, text);
    let ghost views = text_views(tokens@);
    assert(views.len() == tokens@.len());
    let mut k: usize = 0;
    while k < tokens.len()
        invariant
            k <= tokens@.len(),
            views == text_views(tokens@),
            views.len() == tokens@.len(),
            forall|j: int| 0 <= j < k ==> !breaks_greek_stemmer(#[trigger] views[j]),
            can_run(lexicon(), planned_stages(config@)->Ok_0, text@) == all_stem(views),
        decreases tokens.len() - k,
    {
        assert(views[k as int] == tokens@[k as int]@);
        if can_break_greek_stemmer(tokens[k].as_str()) {
            return false;
        }
        k = k + 1;
    }
    true
}

} // verus!

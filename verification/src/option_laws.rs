//! What holds of any set of tokenizer options.
use crate::error::{ErrorView, FtIndexError};
use crate::text::{listed_words, lowercased, mark, stripped, trimmed, unsigned_number};
use crate::tokenizer::{
    after_option, after_options, config_problem, config_result_is, configured, default_config,
    lists_entries, option_key, setting_of, setting_value, Setting, SettingValue, TokenizerConfig,
    TokenizerConfigView, TokenizerKind,
};
use vstd::prelude::*;

verus! {

/// The value that a configuration has for a setting.
pub open spec fn setting_in(c: TokenizerConfigView, setting: Setting) -> SettingValue {
    match setting {
        Setting::Tokenizer => SettingValue::Kind(c.tokenizer),
        Setting::NgramMinGram => SettingValue::Size(c.ngram_min_gram),
        Setting::NgramMaxGram => SettingValue::Size(c.ngram_max_gram),
        Setting::NgramPrefixOnly => SettingValue::Flag(c.ngram_prefix_only),
        Setting::JiebaSearchMode => SettingValue::Flag(c.jieba_search_mode),
        Setting::JiebaOrdinalPosition => SettingValue::Flag(c.jieba_ordinal_position),
        Setting::LowerCase => SettingValue::Flag(c.lower_case),
        Setting::MaxTokenLength => SettingValue::Size(c.max_token_length),
        Setting::AsciiFolding => SettingValue::Flag(c.ascii_folding),
        Setting::Stem => SettingValue::Flag(c.stem),
        Setting::Language => SettingValue::Text(c.language),
        Setting::RemoveStopWords => SettingValue::Flag(c.remove_stop_words),
        Setting::StopWords => SettingValue::Words(c.stop_words),
        Setting::WithPosition => SettingValue::Flag(c.with_position),
    }
}

/// What the option with this raw key sets.
pub open spec fn setting_of_option(raw_key: Seq<char>) -> Option<Setting> {
    setting_of(option_key(raw_key))
}

/// Whether no two options of the map set the same thing.
pub open spec fn settings_given_once(options: Map<Seq<char>, Seq<char>>) -> bool {
    forall|a: Seq<char>, b: Seq<char>|
        #![trigger setting_of_option(a), setting_of_option(b)]
        options.contains_key(a) && options.contains_key(b) && setting_of_option(a) is Some
            && setting_of_option(a) == setting_of_option(b) ==> a == b
}

/// Whether the value of the option can be used for what its key sets.
pub open spec fn option_is_usable(raw_key: Seq<char>, value: Seq<char>) -> bool {
    match setting_of_option(raw_key) {
        None => true,
        Some(setting) => setting_value(setting, option_key(raw_key), value) is Ok,
    }
}

/// An option changes the setting that its key names to the value that its text writes, and
/// nothing else.
pub proof fn option_sets_only_its_setting(
    c: TokenizerConfigView,
    raw_key: Seq<char>,
    value: Seq<char>,
    other: Setting,
)
    requires
        option_is_usable(raw_key, value),
    ensures
        after_option(c, raw_key, value) matches Ok(d) && setting_in(d, other) == (
        if setting_of_option(raw_key) == Some(other) {
            setting_value(other, option_key(raw_key), value)->Ok_0
        } else {
            setting_in(c, other)
        }),
{
}

/// The values of options are accepted exactly if each of them can be used.
proof fn options_by_setting(entries: Seq<(Seq<char>, Seq<char>)>, n: int)
    requires
        0 <= n <= entries.len(),
    ensures
        after_options(entries, n) is Ok <==> forall|i: int|
            0 <= i < n ==> option_is_usable((#[trigger] entries[i]).0, entries[i].1),
    decreases n,
{
    if n > 0 {
        options_by_setting(entries, n - 1);
        let e = entries[n - 1];
        if after_options(entries, n - 1) is Ok {
            assert(after_option(after_options(entries, n - 1)->Ok_0, e.0, e.1) is Ok
                <==> option_is_usable(e.0, e.1));
        }
    }
}

/// The value of a setting after the option at `at`, where no later option names it.
proof fn setting_named_last(
    entries: Seq<(Seq<char>, Seq<char>)>,
    n: int,
    setting: Setting,
    at: int,
)
    requires
        0 <= at < n <= entries.len(),
        after_options(entries, n) is Ok,
        setting_of_option(entries[at].0) == Some(setting),
        forall|i: int|
            at < i < entries.len() ==> setting_of_option((#[trigger] entries[i]).0) != Some(
                setting,
            ),
    ensures
        setting_in(after_options(entries, n)->Ok_0, setting) == setting_value(
            setting,
            option_key(entries[at].0),
            entries[at].1,
        )->Ok_0,
        option_is_usable(entries[at].0, entries[at].1),
    decreases n,
{
    let before = after_options(entries, n - 1)->Ok_0;
    let e = entries[n - 1];
    assert(option_is_usable(e.0, e.1));
    option_sets_only_its_setting(before, e.0, e.1, setting);
    if at < n - 1 {
        setting_named_last(entries, n - 1, setting, at);
    }
}

/// Where several options set the same thing, the last of them stands.
pub proof fn last_option_stands(
    entries: Seq<(Seq<char>, Seq<char>)>,
    setting: Setting,
    at: int,
)
    requires
        configured(entries) is Ok,
        0 <= at < entries.len(),
        setting_of_option(entries[at].0) == Some(setting),
        forall|i: int|
            at < i < entries.len() ==> setting_of_option((#[trigger] entries[i]).0) != Some(
                setting,
            ),
    ensures
        setting_value(setting, option_key(entries[at].0), entries[at].1) == Ok::<
            SettingValue,
            ErrorView,
        >(setting_in(configured(entries)->Ok_0, setting)),
{
    setting_named_last(entries, entries.len() as int, setting, at);
}

/// What no option sets has its default.
pub proof fn unnamed_setting_is_default(entries: Seq<(Seq<char>, Seq<char>)>, setting: Setting)
    requires
        configured(entries) is Ok,
        forall|i: int|
            0 <= i < entries.len() ==> setting_of_option((#[trigger] entries[i]).0) != Some(
                setting,
            ),
    ensures
        setting_in(configured(entries)->Ok_0, setting) == setting_in(default_config(), setting),
{
    setting_not_named(entries, entries.len() as int, setting);
}

/// The value of a setting that no option names.
proof fn setting_not_named(entries: Seq<(Seq<char>, Seq<char>)>, n: int, setting: Setting)
    requires
        0 <= n <= entries.len(),
        after_options(entries, n) is Ok,
        forall|i: int|
            0 <= i < entries.len() ==> setting_of_option((#[trigger] entries[i]).0) != Some(
                setting,
            ),
    ensures
        setting_in(after_options(entries, n)->Ok_0, setting) == setting_in(
            default_config(),
            setting,
        ),
    decreases n,
{
    if n > 0 {
        let before = after_options(entries, n - 1)->Ok_0;
        setting_not_named(entries, n - 1, setting);
        let e = entries[n - 1];
        assert(option_is_usable(e.0, e.1));
        option_sets_only_its_setting(before, e.0, e.1, setting);
    }
}

/// Two configurations with the same value for each setting are the same.
proof fn settings_determine_config(c: TokenizerConfigView, d: TokenizerConfigView)
    requires
        forall|s: Setting| #[trigger] setting_in(c, s) == setting_in(d, s),
    ensures
        c == d,
{
    assert(setting_in(c, Setting::Tokenizer) == setting_in(d, Setting::Tokenizer));
    assert(setting_in(c, Setting::NgramMinGram) == setting_in(d, Setting::NgramMinGram));
    assert(setting_in(c, Setting::NgramMaxGram) == setting_in(d, Setting::NgramMaxGram));
    assert(setting_in(c, Setting::NgramPrefixOnly) == setting_in(d, Setting::NgramPrefixOnly));
    assert(setting_in(c, Setting::JiebaSearchMode) == setting_in(d, Setting::JiebaSearchMode));
    assert(setting_in(c, Setting::JiebaOrdinalPosition) == setting_in(
        d,
        Setting::JiebaOrdinalPosition,
    ));
    assert(setting_in(c, Setting::LowerCase) == setting_in(d, Setting::LowerCase));
    assert(setting_in(c, Setting::MaxTokenLength) == setting_in(d, Setting::MaxTokenLength));
    assert(setting_in(c, Setting::AsciiFolding) == setting_in(d, Setting::AsciiFolding));
    assert(setting_in(c, Setting::Stem) == setting_in(d, Setting::Stem));
    assert(setting_in(c, Setting::Language) == setting_in(d, Setting::Language));
    assert(setting_in(c, Setting::RemoveStopWords) == setting_in(d, Setting::RemoveStopWords));
    assert(setting_in(c, Setting::StopWords) == setting_in(d, Setting::StopWords));
    assert(setting_in(c, Setting::WithPosition) == setting_in(d, Setting::WithPosition));
}

/// One listing of the options is accepted as far as its values go exactly if another one is.
proof fn usable_in_any_order(
    options: Map<Seq<char>, Seq<char>>,
    a: Seq<(Seq<char>, Seq<char>)>,
    b: Seq<(Seq<char>, Seq<char>)>,
)
    requires
        lists_entries(a, options),
        lists_entries(b, options),
        after_options(a, a.len() as int) is Ok,
    ensures
        after_options(b, b.len() as int) is Ok,
{
    options_by_setting(a, a.len() as int);
    options_by_setting(b, b.len() as int);
    assert forall|i: int| 0 <= i < b.len() implies option_is_usable(
        (#[trigger] b[i]).0,
        b[i].1,
    ) by {
        assert(options.contains_pair(b[i].0, b[i].1));
        assert(options.contains_key(b[i].0));
        let j = choose|j: int| 0 <= j < a.len() && (#[trigger] a[j]).0 == b[i].0;
        assert(options.contains_pair(a[j].0, a[j].1));
        assert(option_is_usable(a[j].0, a[j].1));
    }
}

/// Where no two options set the same thing, the order in which they are taken does not matter:
/// every order gives the same configuration, or every order is refused.
pub proof fn option_order_is_irrelevant(
    options: Map<Seq<char>, Seq<char>>,
    a: Seq<(Seq<char>, Seq<char>)>,
    b: Seq<(Seq<char>, Seq<char>)>,
)
    requires
        lists_entries(a, options),
        lists_entries(b, options),
        settings_given_once(options),
    ensures
        configured(a) is Ok <==> configured(b) is Ok,
        configured(a) is Ok ==> configured(a) == configured(b),
{
    if after_options(a, a.len() as int) is Ok {
        usable_in_any_order(options, a, b);
        same_settings(options, a, b);
    } else if after_options(b, b.len() as int) is Ok {
        usable_in_any_order(options, b, a);
    }
}

proof fn same_settings(
    options: Map<Seq<char>, Seq<char>>,
    a: Seq<(Seq<char>, Seq<char>)>,
    b: Seq<(Seq<char>, Seq<char>)>,
)
    requires
        lists_entries(a, options),
        lists_entries(b, options),
        settings_given_once(options),
        after_options(a, a.len() as int) is Ok,
        after_options(b, b.len() as int) is Ok,
    ensures
        after_options(a, a.len() as int) == after_options(b, b.len() as int),
{
    let c = after_options(a, a.len() as int)->Ok_0;
    let d = after_options(b, b.len() as int)->Ok_0;
    assert forall|s: Setting| #[trigger] setting_in(c, s) == setting_in(d, s) by {
        if exists|i: int|
            0 <= i < a.len() && setting_of_option((#[trigger] a[i]).0) == Some(s) {
            let i = choose|i: int|
                0 <= i < a.len() && setting_of_option((#[trigger] a[i]).0) == Some(s);
            assert(options.contains_pair(a[i].0, a[i].1));
            let j = choose|j: int| 0 <= j < b.len() && (#[trigger] b[j]).0 == a[i].0;
            assert(options.contains_pair(b[j].0, b[j].1));
            named_once_at(options, a, s, i);
            named_once_at(options, b, s, j);
            setting_named_last(a, a.len() as int, s, i);
            setting_named_last(b, b.len() as int, s, j);
        } else {
            assert forall|j: int| 0 <= j < b.len() implies setting_of_option(
                (#[trigger] b[j]).0,
            ) != Some(s) by {
                assert(options.contains_pair(b[j].0, b[j].1));
                assert(options.contains_key(b[j].0));
                let i = choose|i: int| 0 <= i < a.len() && (#[trigger] a[i]).0 == b[j].0;
                assert(setting_of_option(a[i].0) != Some(s));
            }
            setting_not_named(a, a.len() as int, s);
            setting_not_named(b, b.len() as int, s);
        }
    }
    settings_determine_config(c, d);
}

proof fn named_once_at(
    options: Map<Seq<char>, Seq<char>>,
    entries: Seq<(Seq<char>, Seq<char>)>,
    setting: Setting,
    at: int,
)
    requires
        lists_entries(entries, options),
        settings_given_once(options),
        0 <= at < entries.len(),
        setting_of_option(entries[at].0) == Some(setting),
    ensures
        forall|i: int|
            0 <= i < entries.len() && setting_of_option((#[trigger] entries[i]).0) == Some(setting)
                ==> i == at,
{
    assert forall|i: int|
        0 <= i < entries.len() && setting_of_option((#[trigger] entries[i]).0) == Some(
            setting,
        ) implies i == at by {
        assert(options.contains_pair(entries[i].0, entries[i].1));
        assert(options.contains_pair(entries[at].0, entries[at].1));
        assert(entries[i].0 == entries[at].0);
    }
}

/// A value that cannot be used refuses the options, wherever it stands among them.
pub proof fn unusable_value_is_refused(entries: Seq<(Seq<char>, Seq<char>)>, at: int)
    requires
        0 <= at < entries.len(),
        !option_is_usable(entries[at].0, entries[at].1),
    ensures
        configured(entries) is Err,
{
    options_by_setting(entries, entries.len() as int);
}

/// A configuration that options give passes validation.
pub proof fn configured_is_valid(entries: Seq<(Seq<char>, Seq<char>)>)
    ensures
        configured(entries) matches Ok(c) ==> config_problem(c) is None,
        config_problem(default_config()) is None,
{
}

/// A key means the same with the prefix `fulltext.`, with the prefix `tantivy.` and, unless it
/// begins with one of them itself, without.
pub proof fn prefixed_key_means_the_same(
    c: TokenizerConfigView,
    key: Seq<char>,
    value: Seq<char>,
)
    requires
        stripped(key, "fulltext."@) is None,
        stripped(key, "tantivy."@) is None,
    ensures
        after_option(c, "fulltext."@ + key, value) == after_option(c, key, value),
        after_option(c, "tantivy."@ + key, value) == after_option(c, key, value),
{
    reveal_strlit("fulltext.");
    reveal_strlit("tantivy.");
    let f = "fulltext."@ + key;
    let t = "tantivy."@ + key;
    assert("fulltext."@.is_prefix_of(f));
    assert(f.skip(9) =~= key);
    assert("tantivy."@.is_prefix_of(t));
    assert(t[0] == 't');
    assert(!"fulltext."@.is_prefix_of(t)) by {
        if "fulltext."@.is_prefix_of(t) {
            assert("fulltext."@[0] == t.subrange(0, 9)[0]);
        }
    }
    assert(t.skip(8) =~= key);
}

proof fn key_without_prefix(key: Seq<char>)
    requires
        key.len() >= 2,
        key[0] != 'f',
        key[0] == 't' ==> key[1] != 'a',
    ensures
        option_key(key) == key,
{
    reveal_strlit("fulltext.");
    reveal_strlit("tantivy.");
    if "fulltext."@.is_prefix_of(key) {
        assert("fulltext."@[0] == key.subrange(0, 9)[0]);
    }
    if "tantivy."@.is_prefix_of(key) {
        assert("tantivy."@[0] == key.subrange(0, 8)[0]);
        assert("tantivy."@[1] == key.subrange(0, 8)[1]);
    }
}

proof fn keys_have_no_prefix()
    ensures
        option_key("tokenizer"@) == "tokenizer"@,
        option_key("ngram.prefix-only"@) == "ngram.prefix-only"@,
        option_key("jieba.search-mode"@) == "jieba.search-mode"@,
        option_key("jieba.ordinal-position"@) == "jieba.ordinal-position"@,
        option_key("jieba.ordinal-position-mode"@) == "jieba.ordinal-position-mode"@,
        option_key("lower-case"@) == "lower-case"@,
        option_key("ascii-folding"@) == "ascii-folding"@,
        option_key("stem"@) == "stem"@,
        option_key("remove-stop-words"@) == "remove-stop-words"@,
        option_key("with-position"@) == "with-position"@,
        option_key("ngram.min-gram"@) == "ngram.min-gram"@,
        option_key("ngram.max-gram"@) == "ngram.max-gram"@,
        option_key("max-token-length"@) == "max-token-length"@,
        option_key("language"@) == "language"@,
        option_key("stop-words"@) == "stop-words"@,
{
    reveal_strlit("tokenizer");
    reveal_strlit("ngram.prefix-only");
    reveal_strlit("jieba.search-mode");
    reveal_strlit("jieba.ordinal-position");
    reveal_strlit("jieba.ordinal-position-mode");
    reveal_strlit("lower-case");
    reveal_strlit("ascii-folding");
    reveal_strlit("stem");
    reveal_strlit("remove-stop-words");
    reveal_strlit("with-position");
    reveal_strlit("ngram.min-gram");
    reveal_strlit("ngram.max-gram");
    reveal_strlit("max-token-length");
    reveal_strlit("language");
    reveal_strlit("stop-words");
    key_without_prefix("tokenizer"@);
    key_without_prefix("ngram.prefix-only"@);
    key_without_prefix("jieba.search-mode"@);
    key_without_prefix("jieba.ordinal-position"@);
    key_without_prefix("jieba.ordinal-position-mode"@);
    key_without_prefix("lower-case"@);
    key_without_prefix("ascii-folding"@);
    key_without_prefix("stem"@);
    key_without_prefix("remove-stop-words"@);
    key_without_prefix("with-position"@);
    key_without_prefix("ngram.min-gram"@);
    key_without_prefix("ngram.max-gram"@);
    key_without_prefix("max-token-length"@);
    key_without_prefix("language"@);
    key_without_prefix("stop-words"@);
}

proof fn keys_are_told_apart()
    ensures
        mark("tokenizer"@) == (9nat, 't', 'n'),
        mark("ngram.prefix-only"@) == (17nat, 'n', 'e'),
        mark("jieba.search-mode"@) == (17nat, 'j', 'a'),
        mark("jieba.ordinal-position"@) == (22nat, 'j', 'a'),
        mark("jieba.ordinal-position-mode"@) == (27nat, 'j', '-'),
        mark("lower-case"@) == (10nat, 'l', '-'),
        mark("ascii-folding"@) == (13nat, 'a', 'f'),
        mark("stem"@) == (4nat, 's', 'e'),
        mark("remove-stop-words"@) == (17nat, 'r', 't'),
        mark("with-position"@) == (13nat, 'w', 'o'),
        mark("ngram.min-gram"@) == (14nat, 'n', 'i'),
        mark("ngram.max-gram"@) == (14nat, 'n', 'a'),
        mark("max-token-length"@) == (16nat, 'm', 'n'),
        mark("language"@) == (8nat, 'l', 'u'),
        mark("stop-words"@) == (10nat, 's', 'w'),
{
    reveal_strlit("tokenizer");
    reveal_strlit("ngram.prefix-only");
    reveal_strlit("jieba.search-mode");
    reveal_strlit("jieba.ordinal-position");
    reveal_strlit("jieba.ordinal-position-mode");
    reveal_strlit("lower-case");
    reveal_strlit("ascii-folding");
    reveal_strlit("stem");
    reveal_strlit("remove-stop-words");
    reveal_strlit("with-position");
    reveal_strlit("ngram.min-gram");
    reveal_strlit("ngram.max-gram");
    reveal_strlit("max-token-length");
    reveal_strlit("language");
    reveal_strlit("stop-words");
}

proof fn tokenizer_names_are_told_apart()
    ensures
        mark("default"@) == (7nat, 'd', 'a'),
        mark("simple"@) == (6nat, 's', 'p'),
        mark("whitespace"@) == (10nat, 'w', 's'),
        mark("raw"@) == (3nat, 'r', 'a'),
        mark("ngram"@) == (5nat, 'n', 'r'),
        mark("jieba"@) == (5nat, 'j', 'e'),
{
    reveal_strlit("default");
    reveal_strlit("simple");
    reveal_strlit("whitespace");
    reveal_strlit("raw");
    reveal_strlit("ngram");
    reveal_strlit("jieba");
}

/// An option that is a truth value sets what its key names and nothing else. The value may be in any
/// case and have space around it.
pub proof fn flags_set_what_their_keys_name(c: TokenizerConfigView, value: Seq<char>, b: bool)
    requires
        lowercased(trimmed(value)) == (if b {
            "true"@
        } else {
            "false"@
        }),
    ensures
        after_option(c, "ngram.prefix-only"@, value) == Ok::<TokenizerConfigView, ErrorView>(
            TokenizerConfigView { ngram_prefix_only: b, ..c },
        ),
        after_option(c, "jieba.search-mode"@, value) == Ok::<TokenizerConfigView, ErrorView>(
            TokenizerConfigView { jieba_search_mode: b, ..c },
        ),
        after_option(c, "jieba.ordinal-position"@, value) == Ok::<TokenizerConfigView, ErrorView>(
            TokenizerConfigView { jieba_ordinal_position: b, ..c },
        ),
        after_option(c, "jieba.ordinal-position-mode"@, value) == Ok::<TokenizerConfigView, ErrorView>(
            TokenizerConfigView { jieba_ordinal_position: b, ..c },
        ),
        after_option(c, "lower-case"@, value) == Ok::<TokenizerConfigView, ErrorView>(
            TokenizerConfigView { lower_case: b, ..c },
        ),
        after_option(c, "ascii-folding"@, value) == Ok::<TokenizerConfigView, ErrorView>(
            TokenizerConfigView { ascii_folding: b, ..c },
        ),
        after_option(c, "stem"@, value) == Ok::<TokenizerConfigView, ErrorView>(
            TokenizerConfigView { stem: b, ..c },
        ),
        after_option(c, "remove-stop-words"@, value) == Ok::<TokenizerConfigView, ErrorView>(
            TokenizerConfigView { remove_stop_words: b, ..c },
        ),
        after_option(c, "with-position"@, value) == Ok::<TokenizerConfigView, ErrorView>(
            TokenizerConfigView { with_position: b, ..c },
        ),
{
    keys_have_no_prefix();
    keys_are_told_apart();
    reveal_strlit("true");
    reveal_strlit("false");
    assert("true"@.len() != "false"@.len());
}

/// A value that is no truth value is refused for every option that is one.
pub proof fn other_texts_are_no_flags(c: TokenizerConfigView, value: Seq<char>)
    requires
        lowercased(trimmed(value)) != "true"@,
        lowercased(trimmed(value)) != "false"@,
    ensures
        after_option(c, "ngram.prefix-only"@, value) is Err,
        after_option(c, "jieba.search-mode"@, value) is Err,
        after_option(c, "jieba.ordinal-position"@, value) is Err,
        after_option(c, "jieba.ordinal-position-mode"@, value) is Err,
        after_option(c, "lower-case"@, value) is Err,
        after_option(c, "ascii-folding"@, value) is Err,
        after_option(c, "stem"@, value) is Err,
        after_option(c, "remove-stop-words"@, value) is Err,
        after_option(c, "with-position"@, value) is Err,
{
    keys_have_no_prefix();
    keys_are_told_apart();
}

/// An option that is a size sets what its key names and nothing else. The value is a decimal number
/// and may have space around it.
pub proof fn sizes_set_what_their_keys_name(c: TokenizerConfigView, value: Seq<char>, n: usize)
    requires
        unsigned_number(trimmed(value)) == Some(n as nat),
    ensures
        after_option(c, "ngram.min-gram"@, value) == Ok::<TokenizerConfigView, ErrorView>(
            TokenizerConfigView { ngram_min_gram: n, ..c },
        ),
        after_option(c, "ngram.max-gram"@, value) == Ok::<TokenizerConfigView, ErrorView>(
            TokenizerConfigView { ngram_max_gram: n, ..c },
        ),
        after_option(c, "max-token-length"@, value) == Ok::<TokenizerConfigView, ErrorView>(
            TokenizerConfigView { max_token_length: n, ..c },
        ),
{
    keys_have_no_prefix();
    keys_are_told_apart();
}

/// A value that is no decimal number, or one that is too large, is refused for every option that is a
/// size.
pub proof fn other_texts_are_no_sizes(c: TokenizerConfigView, value: Seq<char>)
    requires
        unsigned_number(trimmed(value)) matches Some(n) ==> n > usize::MAX,
    ensures
        after_option(c, "ngram.min-gram"@, value) is Err,
        after_option(c, "ngram.max-gram"@, value) is Err,
        after_option(c, "max-token-length"@, value) is Err,
{
    keys_have_no_prefix();
    keys_are_told_apart();
}

/// The option `language` sets the language, in lower case and without the space around it, and the
/// option `stop-words` sets the words that it lists between semicolons. Neither changes anything
/// else.
pub proof fn texts_set_what_their_keys_name(c: TokenizerConfigView, value: Seq<char>)
    ensures
        after_option(c, "language"@, value) == Ok::<TokenizerConfigView, ErrorView>(
            TokenizerConfigView { language: lowercased(trimmed(value)), ..c },
        ),
        after_option(c, "stop-words"@, value) == Ok::<TokenizerConfigView, ErrorView>(
            TokenizerConfigView { stop_words: listed_words(value, ';'), ..c },
        ),
{
    keys_have_no_prefix();
    keys_are_told_apart();
}

/// The option `tokenizer` sets the tokenizer that it names, in any case and with space around it, and
/// nothing else. Any other name is refused.
pub proof fn tokenizers_go_by_their_names(c: TokenizerConfigView, value: Seq<char>)
    ensures
        ({
            let name = lowercased(trimmed(value));
            let r = after_option(c, "tokenizer"@, value);
            &&& name == "default"@ ==> r == Ok::<TokenizerConfigView, ErrorView>(
                TokenizerConfigView { tokenizer: TokenizerKind::Default, ..c },
            )
            &&& name == "simple"@ ==> r == Ok::<TokenizerConfigView, ErrorView>(
                TokenizerConfigView { tokenizer: TokenizerKind::Simple, ..c },
            )
            &&& name == "whitespace"@ ==> r == Ok::<TokenizerConfigView, ErrorView>(
                TokenizerConfigView { tokenizer: TokenizerKind::Whitespace, ..c },
            )
            &&& name == "raw"@ ==> r == Ok::<TokenizerConfigView, ErrorView>(
                TokenizerConfigView { tokenizer: TokenizerKind::Raw, ..c },
            )
            &&& name == "ngram"@ ==> r == Ok::<TokenizerConfigView, ErrorView>(
                TokenizerConfigView { tokenizer: TokenizerKind::Ngram, ..c },
            )
            &&& name == "jieba"@ ==> r == Ok::<TokenizerConfigView, ErrorView>(
                TokenizerConfigView { tokenizer: TokenizerKind::Jieba, ..c },
            )
            &&& r is Ok ==> {
                ||| name == "default"@
                ||| name == "simple"@
                ||| name == "whitespace"@
                ||| name == "raw"@
                ||| name == "ngram"@
                ||| name == "jieba"@
            }
        }),
{
    keys_have_no_prefix();
    tokenizer_names_are_told_apart();
}

/// A key that means none of the options of a tokenizer changes nothing.
pub proof fn other_keys_change_nothing(c: TokenizerConfigView, raw_key: Seq<char>, value: Seq<char>)
    requires
        option_key(raw_key) != "tokenizer"@,
        option_key(raw_key) != "ngram.prefix-only"@,
        option_key(raw_key) != "jieba.search-mode"@,
        option_key(raw_key) != "jieba.ordinal-position"@,
        option_key(raw_key) != "jieba.ordinal-position-mode"@,
        option_key(raw_key) != "lower-case"@,
        option_key(raw_key) != "ascii-folding"@,
        option_key(raw_key) != "stem"@,
        option_key(raw_key) != "remove-stop-words"@,
        option_key(raw_key) != "with-position"@,
        option_key(raw_key) != "ngram.min-gram"@,
        option_key(raw_key) != "ngram.max-gram"@,
        option_key(raw_key) != "max-token-length"@,
        option_key(raw_key) != "language"@,
        option_key(raw_key) != "stop-words"@,
    ensures
        after_option(c, raw_key, value) == Ok::<TokenizerConfigView, ErrorView>(c),
{
}

/// A configuration is valid exactly if its grams have at least one character, the shortest is not
/// longer than the longest, and the limit on the length of a token is not zero.
pub proof fn valid_configurations(c: TokenizerConfigView)
    ensures
        config_problem(c) is None <==> 0 < c.ngram_min_gram <= c.ngram_max_gram
            && c.max_token_length > 0,
        config_problem(c) matches Some(e) ==> e is InvalidOption,
{
}

/// A key may stand behind `fulltext.` or `tantivy.`; one of the two is taken off, and nothing else.
pub proof fn one_prefix_is_taken_off(key: Seq<char>)
    ensures
        option_key("fulltext."@ + key) == key,
        option_key("tantivy."@ + key) == key,
        !"fulltext."@.is_prefix_of(key) && !"tantivy."@.is_prefix_of(key) ==> option_key(key)
            == key,
{
    reveal_strlit("fulltext.");
    reveal_strlit("tantivy.");
    let f = "fulltext."@ + key;
    let t = "tantivy."@ + key;
    assert("fulltext."@ =~= f.subrange(0, 9));
    assert(f.skip(9) =~= key);
    assert("tantivy."@ =~= t.subrange(0, 8));
    assert(t.skip(8) =~= key);
    if "fulltext."@.is_prefix_of(t) {
        assert("fulltext."@[0] == t.subrange(0, 9)[0]);
    }
}

/// Where no option names a setting, the texts are cut at what is no letter or digit, put in lower
/// case and kept with their positions, up to forty bytes; the grams would have two characters, the
/// words of jieba would be those for a search, and nothing else is done to the tokens.
pub proof fn settings_that_no_option_names(entries: Seq<(Seq<char>, Seq<char>)>)
    requires
        forall|i: int| 0 <= i < entries.len() ==> setting_of_option((#[trigger] entries[i]).0) is None,
    ensures
        configured(entries) == Ok::<TokenizerConfigView, ErrorView>(
            TokenizerConfigView {
                tokenizer: TokenizerKind::Default,
                ngram_min_gram: 2,
                ngram_max_gram: 2,
                ngram_prefix_only: false,
                jieba_search_mode: true,
                jieba_ordinal_position: true,
                lower_case: true,
                max_token_length: 40,
                ascii_folding: false,
                stem: false,
                language: "english"@,
                remove_stop_words: false,
                stop_words: Seq::empty(),
                with_position: true,
            },
        ),
{
    nothing_is_set(entries, entries.len() as int);
}

proof fn nothing_is_set(entries: Seq<(Seq<char>, Seq<char>)>, n: int)
    requires
        0 <= n <= entries.len(),
        forall|i: int| 0 <= i < entries.len() ==> setting_of_option((#[trigger] entries[i]).0) is None,
    ensures
        after_options(entries, n) == Ok::<TokenizerConfigView, ErrorView>(default_config()),
    decreases n,
{
    if n > 0 {
        nothing_is_set(entries, n - 1);
        assert(setting_of_option(entries[n - 1].0) is None);
    }
}

/// An option is refused with its key, without a prefix, and the value as it was given.
pub proof fn refused_options_are_named(c: TokenizerConfigView, value: Seq<char>)
    ensures
        after_option(c, "stem"@, value) matches Err(e) ==> e == (ErrorView::InvalidOption {
            key: "stem"@,
            message: "expected boolean, got '"@ + value + "'"@,
        }),
        after_option(c, "max-token-length"@, value) matches Err(e) ==> e == (
        ErrorView::InvalidOption {
            key: "max-token-length"@,
            message: "expected unsigned integer, got '"@ + value + "'"@,
        }),
        after_option(c, "tokenizer"@, value) matches Err(e) ==> e == (ErrorView::InvalidOption {
            key: "tokenizer"@,
            message: "unsupported tokenizer '"@ + lowercased(trimmed(value)) + "'"@,
        }),
{
    keys_have_no_prefix();
    keys_are_told_apart();
}

/// A configuration that is not valid is refused for the setting that is wrong.
pub proof fn refused_configurations_are_named(c: TokenizerConfigView)
    ensures
        c.ngram_min_gram == 0 ==> (config_problem(c) matches Some(ErrorView::InvalidOption {
            key,
            ..
        }) && key == "ngram.min-gram"@),
        c.ngram_min_gram > 0 && c.ngram_max_gram == 0 ==> (config_problem(c) matches Some(
            ErrorView::InvalidOption { key, .. },
        ) && key == "ngram.max-gram"@),
        0 < c.ngram_max_gram < c.ngram_min_gram ==> (config_problem(c) matches Some(
            ErrorView::InvalidOption { key, .. },
        ) && key == "ngram.min-gram"@),
        0 < c.ngram_min_gram <= c.ngram_max_gram && c.max_token_length == 0 ==> (config_problem(
            c,
        ) matches Some(ErrorView::InvalidOption { key, .. }) && key == "max-token-length"@),
{
}

/// A result that is what the model gives succeeds exactly where the model does, with a configuration
/// that shows what the model has, or fails with its error.
pub proof fn configurations_agree_with_the_model(
    r: Result<TokenizerConfig, FtIndexError>,
    expected: Result<TokenizerConfigView, ErrorView>,
)
    requires
        config_result_is(r, expected),
    ensures
        r is Ok <==> expected is Ok,
        r matches Ok(config) ==> config@ == expected->Ok_0,
        r matches Err(e) ==> e@ == expected->Err_0,
{
}

} // verus!

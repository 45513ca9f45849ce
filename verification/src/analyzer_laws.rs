//! What holds of the tokens of any text.
use crate::analyzer::{
    analyzed, analyzer_result_is, analyzer_stages, ascii_folded, can_run, cut, filtered,
    has_stop_words, language_named, lower_cased, planned_stages, Lexicon, Stage,
};
use crate::error::{ErrorView, FtIndexError};
use crate::text::{lowercased, mark, trimmed};
use crate::tokenizer::{config_problem, TokenizerConfigView, TokenizerKind};
use tantivy::tokenizer::{Language, TextAnalyzer};
use vstd::prelude::*;
use vstd::utf8::encode_utf8;

verus! {

/// A configuration that passes validation and needs no language always has an analyzer.
pub proof fn valid_config_has_stages(c: TokenizerConfigView)
    requires
        config_problem(c) is None,
        !c.stem,
        !c.remove_stop_words,
    ensures
        planned_stages(c) is Ok,
{
}

/// The analyzer of a configuration can be run on any text, unless it cuts texts into grams without
/// a limit or stems Greek.
pub proof fn planned_stages_can_run(lex: Lexicon, c: TokenizerConfigView, text: Seq<char>)
    requires
        planned_stages(c) is Ok,
        c.tokenizer == TokenizerKind::Ngram ==> c.ngram_max_gram < usize::MAX,
        c.stem ==> language_named(c.language) != Ok::<Language, ErrorView>(Language::Greek),
    ensures
        can_run(lex, planned_stages(c)->Ok_0, text),
{
}

/// The last stage of a configuration without ASCII folding that lists stop words leaves them out.
proof fn listed_stop_words_stage(c: TokenizerConfigView)
    requires
        planned_stages(c) is Ok,
        c.remove_stop_words,
        c.stop_words.len() > 0,
        !c.ascii_folding,
    ensures
        planned_stages(c)->Ok_0.len() > 1,
        planned_stages(c)->Ok_0.last() == Stage::StopWords(c.stop_words),
{
}

/// No token is one of the stop words that the configuration lists, as long as ASCII folding does
/// not change the tokens once more.
pub proof fn listed_stop_words_are_left_out(
    lex: Lexicon,
    c: TokenizerConfigView,
    text: Seq<char>,
    i: int,
)
    requires
        planned_stages(c) is Ok,
        c.remove_stop_words,
        !c.ascii_folding,
        0 <= i < analyzed(lex, planned_stages(c)->Ok_0, text).len(),
    ensures
        !c.stop_words.contains(analyzed(lex, planned_stages(c)->Ok_0, text)[i]),
{
    if c.stop_words.len() > 0 {
        listed_stop_words_stage(c);
        let stages = planned_stages(c)->Ok_0;
        let reached = analyzed(lex, stages.drop_last(), text);
        let words = c.stop_words;
        reached.lemma_filter_pred(|t: Seq<char>| !words.contains(t), i);
    }
}

/// Whether each token is shorter than `limit`, in bytes.
pub open spec fn all_shorter(tokens: Seq<Seq<char>>, limit: usize) -> bool {
    forall|i: int| 0 <= i < tokens.len() ==> encode_utf8(#[trigger] tokens[i]).len() < limit
}

proof fn stop_words_keep_short(lex: Lexicon, stage: Stage, tokens: Seq<Seq<char>>, limit: usize)
    requires
        all_shorter(tokens, limit),
        stage is StopWordsOf || stage is StopWords,
    ensures
        all_shorter(filtered(lex, stage, tokens), limit),
{
    let pred = match stage {
        Stage::StopWordsOf(language) => |t: Seq<char>| !(lex.stop_words)(language).contains(t),
        Stage::StopWords(words) => |t: Seq<char>| !words.contains(t),
        _ => |t: Seq<char>| true,
    };
    kept_tokens_are_tokens(tokens, pred);
    let kept = tokens.filter(pred);
    assert forall|i: int| 0 <= i < kept.len() implies encode_utf8(#[trigger] kept[i]).len()
        < limit by {
        assert(tokens.contains(kept[i]));
    }
}

proof fn kept_tokens_are_tokens(tokens: Seq<Seq<char>>, pred: spec_fn(Seq<char>) -> bool)
    ensures
        forall|i: int|
            0 <= i < tokens.filter(pred).len() ==> tokens.contains(
                #[trigger] tokens.filter(pred)[i],
            ),
    decreases tokens.len(),
{
    reveal(Seq::filter);
    if tokens.len() > 0 {
        kept_tokens_are_tokens(tokens.drop_last(), pred);
        let rest = tokens.drop_last().filter(pred);
        assert forall|i: int| 0 <= i < tokens.filter(pred).len() implies tokens.contains(
            #[trigger] tokens.filter(pred)[i],
        ) by {
            if i < rest.len() {
                assert(tokens.filter(pred)[i] == rest[i]);
                let k = choose|k: int|
                    0 <= k < tokens.drop_last().len() && tokens.drop_last()[k] == rest[i];
                assert(tokens[k] == rest[i]);
            } else {
                assert(tokens[tokens.len() - 1] == tokens.filter(pred)[i]);
            }
        }
    }
}

/// The first `n` stages of a configuration that changes no letters yield short tokens only.
proof fn short_after(lex: Lexicon, c: TokenizerConfigView, text: Seq<char>, n: int)
    requires
        planned_stages(c) is Ok,
        !c.lower_case,
        !c.stem,
        !c.ascii_folding,
        2 <= n <= planned_stages(c)->Ok_0.len(),
    ensures
        all_shorter(analyzed(lex, planned_stages(c)->Ok_0.take(n), text), c.max_token_length),
    decreases n,
{
    let stages = planned_stages(c)->Ok_0;
    assert(stages.take(n).drop_last() =~= stages.take(n - 1));
    if n == 2 {
        let tokens = analyzed(lex, stages.take(1), text);
        let limit = c.max_token_length;
        assert(stages.take(2).last() == Stage::RemoveLong(limit));
        let pred = |t: Seq<char>| encode_utf8(t).len() < limit;
        assert forall|i: int| 0 <= i < tokens.filter(pred).len() implies encode_utf8(
            #[trigger] tokens.filter(pred)[i],
        ).len() < limit by {
            tokens.lemma_filter_pred(pred, i);
        }
    } else {
        short_after(lex, c, text, n - 1);
        stop_words_keep_short(
            lex,
            stages[n - 1],
            analyzed(lex, stages.take(n - 1), text),
            c.max_token_length,
        );
    }
}

/// Every token is shorter than the limit, in bytes, as long as no stage changes the letters of a
/// token.
pub proof fn tokens_are_short(lex: Lexicon, c: TokenizerConfigView, text: Seq<char>, i: int)
    requires
        planned_stages(c) is Ok,
        !c.lower_case,
        !c.stem,
        !c.ascii_folding,
        0 <= i < analyzed(lex, planned_stages(c)->Ok_0, text).len(),
    ensures
        encode_utf8(analyzed(lex, planned_stages(c)->Ok_0, text)[i]).len() < c.max_token_length,
{
    let stages = planned_stages(c)->Ok_0;
    short_after(lex, c, text, stages.len() as int);
    assert(stages.take(stages.len() as int) =~= stages);
}

/// The raw tokenizer without further filters makes one token of a text that is short enough, and
/// none of a longer one.
pub proof fn raw_keeps_the_text(lex: Lexicon, c: TokenizerConfigView, text: Seq<char>)
    requires
        c.tokenizer == TokenizerKind::Raw,
        !c.lower_case,
        !c.stem,
        !c.remove_stop_words,
        !c.ascii_folding,
    ensures
        planned_stages(c) is Ok,
        analyzed(lex, planned_stages(c)->Ok_0, text) == (if encode_utf8(text).len()
            < c.max_token_length {
            seq![text]
        } else {
            Seq::<Seq<char>>::empty()
        }),
{
    let stages = planned_stages(c)->Ok_0;
    assert(stages =~= seq![Stage::Raw, Stage::RemoveLong(c.max_token_length)]);
    assert(stages.drop_last() =~= seq![Stage::Raw]);
    let limit = c.max_token_length;
    let pred = |t: Seq<char>| encode_utf8(t).len() < limit;
    let tokens = seq![text];
    assert(analyzed(lex, stages.drop_last(), text) == tokens);
    assert(tokens.drop_last() =~= Seq::<Seq<char>>::empty());
    reveal(Seq::filter);
    assert(tokens.drop_last().filter(pred) =~= Seq::<Seq<char>>::empty());
    assert(seq![text] =~= Seq::<Seq<char>>::empty().push(text));
}

/// The tokens that the analyzer of a configuration cuts a text into.
pub open spec fn tokens_of(lex: Lexicon, c: TokenizerConfigView, text: Seq<char>) -> Seq<
    Seq<char>,
> {
    analyzed(lex, planned_stages(c)->Ok_0, text)
}

/// ASCII folding comes last: the tokens are those of the same configuration without it, each folded.
pub proof fn folding_comes_last(lex: Lexicon, c: TokenizerConfigView, text: Seq<char>)
    requires
        planned_stages(c) is Ok,
        c.ascii_folding,
    ensures
        planned_stages(TokenizerConfigView { ascii_folding: false, ..c }) is Ok,
        analyzed(lex, planned_stages(c)->Ok_0, text) == analyzed(
            lex,
            planned_stages(TokenizerConfigView { ascii_folding: false, ..c })->Ok_0,
            text,
        ).map_values(|t: Seq<char>| ascii_folded(lex, t)),
{
    let d = TokenizerConfigView { ascii_folding: false, ..c };
    let stages = planned_stages(c)->Ok_0;
    assert(stages.drop_last() =~= planned_stages(d)->Ok_0);
    assert(stages.last() == Stage::AsciiFolding);
}

proof fn filtered_twice(
    tokens: Seq<Seq<char>>,
    p: spec_fn(Seq<char>) -> bool,
    q: spec_fn(Seq<char>) -> bool,
)
    ensures
        tokens.filter(p).filter(q) == tokens.filter(|t: Seq<char>| p(t) && q(t)),
    decreases tokens.len(),
{
    reveal(Seq::filter);
    if tokens.len() > 0 {
        filtered_twice(tokens.drop_last(), p, q);
        let before = tokens.drop_last().filter(p);
        if p(tokens.last()) {
            assert(before.push(tokens.last()).drop_last() =~= before);
        }
    }
}

/// Before any folding, the stop words are left out of the tokens and nothing else is: those of the
/// language, where there is a list of them, and those that the configuration lists.
pub proof fn stop_words_and_nothing_else_is_left_out(
    lex: Lexicon,
    c: TokenizerConfigView,
    text: Seq<char>,
)
    requires
        planned_stages(c) is Ok,
        c.remove_stop_words,
        !c.ascii_folding,
    ensures
        language_named(c.language) is Ok,
        planned_stages(TokenizerConfigView { remove_stop_words: false, ..c }) is Ok,
        tokens_of(lex, c, text) == tokens_of(
            lex,
            TokenizerConfigView { remove_stop_words: false, ..c },
            text,
        ).filter(
            |t: Seq<char>|
                !(has_stop_words(language_named(c.language)->Ok_0) && (lex.stop_words)(
                    language_named(c.language)->Ok_0,
                ).contains(t)) && !c.stop_words.contains(t),
        ),
{
    let d = TokenizerConfigView { remove_stop_words: false, ..c };
    let language = language_named(c.language)->Ok_0;
    let stages = planned_stages(c)->Ok_0;
    let base = planned_stages(d)->Ok_0;
    let tokens = analyzed(lex, base, text);
    let words = c.stop_words;
    let p = |t: Seq<char>| !(lex.stop_words)(language).contains(t);
    let q = |t: Seq<char>| !words.contains(t);
    let wanted = |t: Seq<char>|
        !(has_stop_words(language_named(c.language)->Ok_0) && (lex.stop_words)(
            language_named(c.language)->Ok_0,
        ).contains(t)) && !c.stop_words.contains(t);
    if has_stop_words(language) {
        if words.len() > 0 {
            let middle = base.push(Stage::StopWordsOf(language));
            assert(stages.drop_last() =~= middle);
            assert(stages.last() == Stage::StopWords(words));
            assert(middle.drop_last() =~= base);
            assert(middle.last() == Stage::StopWordsOf(language));
            assert(analyzed(lex, middle, text) == tokens.filter(p));
            assert(analyzed(lex, stages, text) == tokens.filter(p).filter(q));
            filtered_twice(tokens, p, q);
            same_filter(tokens, |t: Seq<char>| p(t) && q(t), wanted);
        } else {
            assert(stages.drop_last() =~= base);
            assert(stages.last() == Stage::StopWordsOf(language));
            assert(analyzed(lex, stages, text) == tokens.filter(p));
            same_filter(tokens, p, wanted);
        }
    } else {
        assert(stages.drop_last() =~= base);
        assert(stages.last() == Stage::StopWords(words));
        assert(analyzed(lex, stages, text) == tokens.filter(q));
        same_filter(tokens, q, wanted);
    }
}

proof fn same_filter(
    tokens: Seq<Seq<char>>,
    p: spec_fn(Seq<char>) -> bool,
    q: spec_fn(Seq<char>) -> bool,
)
    requires
        forall|t: Seq<char>| #[trigger] p(t) == q(t),
    ensures
        tokens.filter(p) == tokens.filter(q),
    decreases tokens.len(),
{
    reveal(Seq::filter);
    if tokens.len() > 0 {
        same_filter(tokens.drop_last(), p, q);
        assert(p(tokens.last()) == q(tokens.last()));
    }
}

/// Before any stop words are left out, each token is stemmed as the language has it.
pub proof fn tokens_are_stemmed(lex: Lexicon, c: TokenizerConfigView, text: Seq<char>)
    requires
        planned_stages(c) is Ok,
        c.stem,
        !c.remove_stop_words,
        !c.ascii_folding,
    ensures
        language_named(c.language) is Ok,
        planned_stages(TokenizerConfigView { stem: false, ..c }) is Ok,
        tokens_of(lex, c, text) == tokens_of(
            lex,
            TokenizerConfigView { stem: false, ..c },
            text,
        ).map_values(|t: Seq<char>| (lex.stem)(language_named(c.language)->Ok_0, t)),
{
    let d = TokenizerConfigView { stem: false, ..c };
    let language = language_named(c.language)->Ok_0;
    let stages = planned_stages(c)->Ok_0;
    assert(stages.drop_last() =~= planned_stages(d)->Ok_0);
    assert(stages.last() == Stage::Stem(language));
    assert(analyzed(lex, stages, text) =~= analyzed(
        lex,
        planned_stages(d)->Ok_0,
        text,
    ).map_values(|t: Seq<char>| (lex.stem)(language_named(c.language)->Ok_0, t)));
}

/// Before any stemming, each token is put in lower case.
pub proof fn tokens_are_put_in_lower_case(lex: Lexicon, c: TokenizerConfigView, text: Seq<char>)
    requires
        planned_stages(c) is Ok,
        c.lower_case,
        !c.stem,
        !c.remove_stop_words,
        !c.ascii_folding,
    ensures
        planned_stages(TokenizerConfigView { lower_case: false, ..c }) is Ok,
        tokens_of(lex, c, text) == tokens_of(
            lex,
            TokenizerConfigView { lower_case: false, ..c },
            text,
        ).map_values(|t: Seq<char>| lower_cased(lex, t)),
{
    let d = TokenizerConfigView { lower_case: false, ..c };
    let stages = planned_stages(c)->Ok_0;
    assert(stages.drop_last() =~= planned_stages(d)->Ok_0);
    assert(stages.last() == Stage::LowerCase);
}

/// Without further filters, the tokens are what the tokenizer of the configuration cuts the text
/// into, except those whose bytes reach the limit.
pub proof fn tokenizer_cuts_the_text(lex: Lexicon, c: TokenizerConfigView, text: Seq<char>)
    requires
        planned_stages(c) is Ok,
        !c.lower_case,
        !c.stem,
        !c.remove_stop_words,
        !c.ascii_folding,
    ensures
        tokens_of(lex, c, text) == cut(
            lex,
            match c.tokenizer {
                TokenizerKind::Default => Stage::Simple,
                TokenizerKind::Simple => Stage::Simple,
                TokenizerKind::Whitespace => Stage::Whitespace,
                TokenizerKind::Raw => Stage::Raw,
                TokenizerKind::Ngram => Stage::Ngram {
                    min_gram: c.ngram_min_gram,
                    max_gram: c.ngram_max_gram,
                    prefix_only: c.ngram_prefix_only,
                },
                TokenizerKind::Jieba => Stage::Jieba {
                    search_mode: c.jieba_search_mode,
                    ordinal_position: c.jieba_ordinal_position,
                },
            },
            text,
        ).filter(|t: Seq<char>| encode_utf8(t).len() < c.max_token_length),
        c.tokenizer == TokenizerKind::Jieba ==> planned_stages(c)->Ok_0[0] == (Stage::Jieba {
            search_mode: c.jieba_search_mode,
            ordinal_position: c.jieba_ordinal_position,
        }),
{
    let stages = planned_stages(c)->Ok_0;
    let limit = c.max_token_length;
    assert(stages.len() == 2);
    assert(stages.drop_last().len() == 1);
    assert(stages.last() == Stage::RemoveLong(limit));
    same_filter(
        analyzed(lex, stages.drop_last(), text),
        |t: Seq<char>| encode_utf8(t).len() < limit,
        |t: Seq<char>| encode_utf8(t).len() < c.max_token_length,
    );
}

/// A configuration has an analyzer exactly if its grams are of a possible length where it cuts texts
/// into grams, its language is known where it stems or leaves out stop words, and there are stop
/// words where they are to be left out.
pub proof fn configurations_with_an_analyzer(c: TokenizerConfigView)
    ensures
        planned_stages(c) is Ok <==> {
            &&& c.tokenizer == TokenizerKind::Ngram ==> 0 < c.ngram_min_gram <= c.ngram_max_gram
            &&& c.stem || c.remove_stop_words ==> language_named(c.language) is Ok
            &&& c.remove_stop_words ==> has_stop_words(language_named(c.language)->Ok_0)
                || c.stop_words.len() > 0
        },
{
}

proof fn language_names_are_told_apart()
    ensures
        mark("arabic"@) == (6nat, 'a', 'b'),
        mark("danish"@) == (6nat, 'd', 'i'),
        mark("dutch"@) == (5nat, 'd', 't'),
        mark("english"@) == (7nat, 'e', 'l'),
        mark("en"@) == (2nat, 'e', 'n'),
        mark("finnish"@) == (7nat, 'f', 'n'),
        mark("french"@) == (6nat, 'f', 'n'),
        mark("fr"@) == (2nat, 'f', 'r'),
        mark("german"@) == (6nat, 'g', 'm'),
        mark("de"@) == (2nat, 'd', 'e'),
        mark("greek"@) == (5nat, 'g', 'e'),
        mark("hungarian"@) == (9nat, 'h', 'a'),
        mark("italian"@) == (7nat, 'i', 'l'),
        mark("it"@) == (2nat, 'i', 't'),
        mark("norwegian"@) == (9nat, 'n', 'e'),
        mark("portuguese"@) == (10nat, 'p', 'g'),
        mark("pt"@) == (2nat, 'p', 't'),
        mark("romanian"@) == (8nat, 'r', 'n'),
        mark("russian"@) == (7nat, 'r', 's'),
        mark("ru"@) == (2nat, 'r', 'u'),
        mark("spanish"@) == (7nat, 's', 'n'),
        mark("es"@) == (2nat, 'e', 's'),
        mark("swedish"@) == (7nat, 's', 'd'),
        mark("tamil"@) == (5nat, 't', 'm'),
        mark("turkish"@) == (7nat, 't', 'k'),
{
    reveal_strlit("arabic");
    reveal_strlit("danish");
    reveal_strlit("dutch");
    reveal_strlit("english");
    reveal_strlit("en");
    reveal_strlit("finnish");
    reveal_strlit("french");
    reveal_strlit("fr");
    reveal_strlit("german");
    reveal_strlit("de");
    reveal_strlit("greek");
    reveal_strlit("hungarian");
    reveal_strlit("italian");
    reveal_strlit("it");
    reveal_strlit("norwegian");
    reveal_strlit("portuguese");
    reveal_strlit("pt");
    reveal_strlit("romanian");
    reveal_strlit("russian");
    reveal_strlit("ru");
    reveal_strlit("spanish");
    reveal_strlit("es");
    reveal_strlit("swedish");
    reveal_strlit("tamil");
    reveal_strlit("turkish");
}

/// Each language is known by its English name and some by a code of two letters, in any case and
/// with space around it, and by nothing else.
pub proof fn languages_go_by_their_names(text: Seq<char>)
    ensures
        ({
            let name = lowercased(trimmed(text));
            let known = language_named(text);
            &&& known == Ok::<Language, ErrorView>(Language::Arabic) <==> name == "arabic"@
            &&& known == Ok::<Language, ErrorView>(Language::Danish) <==> name == "danish"@
            &&& known == Ok::<Language, ErrorView>(Language::Dutch) <==> name == "dutch"@
            &&& known == Ok::<Language, ErrorView>(Language::English) <==> {
                ||| name == "english"@
                ||| name == "en"@
            }
            &&& known == Ok::<Language, ErrorView>(Language::Finnish) <==> name == "finnish"@
            &&& known == Ok::<Language, ErrorView>(Language::French) <==> {
                ||| name == "french"@
                ||| name == "fr"@
            }
            &&& known == Ok::<Language, ErrorView>(Language::German) <==> {
                ||| name == "german"@
                ||| name == "de"@
            }
            &&& known == Ok::<Language, ErrorView>(Language::Greek) <==> name == "greek"@
            &&& known == Ok::<Language, ErrorView>(Language::Hungarian) <==> name == "hungarian"@
            &&& known == Ok::<Language, ErrorView>(Language::Italian) <==> {
                ||| name == "italian"@
                ||| name == "it"@
            }
            &&& known == Ok::<Language, ErrorView>(Language::Norwegian) <==> name == "norwegian"@
            &&& known == Ok::<Language, ErrorView>(Language::Portuguese) <==> {
                ||| name == "portuguese"@
                ||| name == "pt"@
            }
            &&& known == Ok::<Language, ErrorView>(Language::Romanian) <==> name == "romanian"@
            &&& known == Ok::<Language, ErrorView>(Language::Russian) <==> {
                ||| name == "russian"@
                ||| name == "ru"@
            }
            &&& known == Ok::<Language, ErrorView>(Language::Spanish) <==> {
                ||| name == "spanish"@
                ||| name == "es"@
            }
            &&& known == Ok::<Language, ErrorView>(Language::Swedish) <==> name == "swedish"@
            &&& known == Ok::<Language, ErrorView>(Language::Tamil) <==> name == "tamil"@
            &&& known == Ok::<Language, ErrorView>(Language::Turkish) <==> name == "turkish"@
        }),
{
    language_names_are_told_apart();
}

/// A result that is what the model gives is an analyzer with the stages of the model exactly where
/// the model has some, or fails with its error.
pub proof fn analyzers_agree_with_the_model(
    r: Result<TextAnalyzer, FtIndexError>,
    expected: Result<Seq<Stage>, ErrorView>,
)
    requires
        analyzer_result_is(r, expected),
    ensures
        r is Ok <==> expected is Ok,
        r matches Ok(analyzer) ==> analyzer_stages(analyzer) == expected->Ok_0,
        r matches Err(e) ==> e@ == expected->Err_0,
{
}

} // verus!

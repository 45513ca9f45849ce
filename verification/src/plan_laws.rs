//! What holds of the plan of any query.
use crate::analyzer::{analyzed, lexicon};
use crate::plan_model::{
    child_clauses, column_boost, column_clauses, escaped, field_clauses, field_match_plan,
    match_options_problem, match_plan, named_column, optional_text, pair_clauses, phrase_text,
    plan, resolved_field, resolved_match_fields, resolved_texts, token_clauses, token_plan,
    tokens_plan, FieldMatchOptions, IndexModel,
};
use crate::query::{BooleanOccur, PlanView, QuerySpec};
use crate::schema::field_id;
use crate::score::{boost_problem, differs_from_one, negative_boost_problem, Score};
use crate::text::{decimal, replaced, text_views, trimmed};
use tantivy::query::Occur;
use vstd::prelude::*;

verus! {

/// Whether the id is that of a text field of the index.
pub open spec fn is_text_field(index: IndexModel, field: u32) -> bool {
    exists|i: int|
        0 <= i < index.config.text_fields.len() && field_id(
            index.fields,
            #[trigger] index.config.text_fields[i],
        ) == Some(field)
}

/// Whether a plan can be run: it looks at text fields only, its edit distances are one or two with a
/// prefix of the token and at least one expansion, and its boosts are ones that are accepted.
pub open spec fn sound(index: IndexModel, p: PlanView) -> bool
    decreases p,
{
    match p {
        PlanView::Empty => true,
        PlanView::Term { field, .. } => is_text_field(index, field),
        PlanView::Fuzzy { field, token, distance, prefix, max_expansions } => {
            &&& is_text_field(index, field)
            &&& 1 <= distance <= 2
            &&& prefix.is_prefix_of(token)
            &&& max_expansions > 0
        },
        PlanView::Phrase { field, .. } => is_text_field(index, field),
        PlanView::Boolean(clauses) => forall|i: int|
            0 <= i < clauses.len() ==> sound(index, (#[trigger] clauses[i]).1),
        PlanView::Boosted { query, boost } => {
            &&& boost_problem(boost) is None
            &&& differs_from_one(boost)
            &&& sound(index, *query)
        },
        PlanView::Demote { positive, negative, negative_boost } => {
            &&& negative_boost_problem(negative_boost) is None
            &&& sound(index, *positive)
            &&& sound(index, *negative)
        },
    }
}

/// Whether each clause of a list can be run.
pub open spec fn all_sound(index: IndexModel, clauses: Seq<(Occur, PlanView)>) -> bool {
    forall|i: int| 0 <= i < clauses.len() ==> sound(index, (#[trigger] clauses[i]).1)
}

/// A column means a text field of the index.
pub proof fn resolved_field_is_text(index: IndexModel, column: Option<Seq<char>>)
    ensures
        resolved_field(index, column) matches Ok(field) ==> is_text_field(index, field),
{
    if let Ok(field) = resolved_field(index, column) {
        let texts = index.config.text_fields;
        let name = match named_column(column) {
            Some(name) => name,
            None => texts[0],
        };
        let i = texts.index_of(name);
        assert(texts[i] == name);
        assert(field_id(index.fields, texts[i]) == Some(field));
    }
}

proof fn resolved_texts_are_text(index: IndexModel, n: int)
    requires
        resolved_texts(index, n) is Ok,
    ensures
        forall|i: int|
            0 <= i < resolved_texts(index, n)->Ok_0.len() ==> is_text_field(
                index,
                #[trigger] resolved_texts(index, n)->Ok_0[i],
            ),
    decreases n,
{
    if n > 0 {
        resolved_texts_are_text(index, n - 1);
        resolved_field_is_text(index, Some(index.config.text_fields[n - 1]));
    }
}

proof fn match_fields_are_text(index: IndexModel, column: Option<Seq<char>>)
    requires
        resolved_match_fields(index, column) is Ok,
    ensures
        forall|i: int|
            0 <= i < resolved_match_fields(index, column)->Ok_0.len() ==> is_text_field(
                index,
                #[trigger] resolved_match_fields(index, column)->Ok_0[i],
            ),
{
    if named_column(column) is Some {
        resolved_field_is_text(index, column);
    } else {
        resolved_texts_are_text(index, index.config.text_fields.len() as int);
    }
}

proof fn token_plan_is_sound(index: IndexModel, field: u32, token: Seq<char>, o: FieldMatchOptions)
    requires
        is_text_field(index, field),
        o.max_expansions > 0,
        token_plan(field, token, o) is Ok,
    ensures
        sound(index, token_plan(field, token, o)->Ok_0),
{
}

proof fn token_clauses_are_sound(
    index: IndexModel,
    field: u32,
    tokens: Seq<Seq<char>>,
    o: FieldMatchOptions,
    n: int,
)
    requires
        is_text_field(index, field),
        o.max_expansions > 0,
        token_clauses(field, tokens, o, n) is Ok,
    ensures
        all_sound(index, token_clauses(field, tokens, o, n)->Ok_0),
    decreases n,
{
    if n > 0 {
        token_clauses_are_sound(index, field, tokens, o, n - 1);
        token_plan_is_sound(index, field, tokens[n - 1], o);
    }
}

proof fn field_match_is_sound(
    index: IndexModel,
    field: u32,
    terms: Seq<char>,
    o: FieldMatchOptions,
)
    requires
        is_text_field(index, field),
        o.max_expansions > 0,
        field_match_plan(index, field, terms, o) is Ok,
    ensures
        sound(index, field_match_plan(index, field, terms, o)->Ok_0),
{
    let tokens = analyzed(lexicon(), index.stages, terms);
    if tokens.len() == 1 {
        token_plan_is_sound(index, field, tokens[0], o);
    } else if tokens.len() > 1 {
        token_clauses_are_sound(index, field, tokens, o, tokens.len() as int);
    }
    let base = tokens_plan(field, tokens, o)->Ok_0;
    assert(sound(index, base));
}

proof fn field_clauses_are_sound(
    index: IndexModel,
    fields: Seq<u32>,
    terms: Seq<char>,
    o: FieldMatchOptions,
    n: int,
)
    requires
        n <= fields.len(),
        forall|i: int| 0 <= i < fields.len() ==> is_text_field(index, #[trigger] fields[i]),
        o.max_expansions > 0,
        field_clauses(index, fields, terms, o, n) is Ok,
    ensures
        all_sound(index, field_clauses(index, fields, terms, o, n)->Ok_0),
    decreases n,
{
    if n > 0 {
        field_clauses_are_sound(index, fields, terms, o, n - 1);
        assert(is_text_field(index, fields[n - 1]));
        field_match_is_sound(index, fields[n - 1], terms, o);
    }
}

proof fn column_clauses_are_sound(
    index: IndexModel,
    columns: Seq<Seq<char>>,
    boosts: Seq<Score>,
    terms: Seq<char>,
    o: FieldMatchOptions,
    n: int,
)
    requires
        o.max_expansions > 0,
        column_clauses(index, columns, boosts, terms, o, n) is Ok,
    ensures
        all_sound(index, column_clauses(index, columns, boosts, terms, o, n)->Ok_0),
    decreases n,
{
    if n > 0 {
        column_clauses_are_sound(index, columns, boosts, terms, o, n - 1);
        resolved_field_is_text(index, Some(columns[n - 1]));
        field_match_is_sound(
            index,
            resolved_field(index, Some(columns[n - 1]))->Ok_0,
            terms,
            FieldMatchOptions { boost: column_boost(boosts, n - 1), ..o },
        );
    }
}

/// Every query that is accepted gives a plan that can be run.
pub proof fn plan_is_sound(index: IndexModel, query: QuerySpec)
    requires
        plan(index, query) is Ok,
    ensures
        sound(index, plan(index, query)->Ok_0),
    decreases query, 0int,
{
    match query {
        QuerySpec::Match {
            column,
            terms,
            operator,
            boost,
            fuzziness,
            max_expansions,
            prefix_length,
        } => {
            let o = FieldMatchOptions {
                operator,
                boost,
                fuzziness,
                max_expansions,
                prefix_length,
            };
            match_fields_are_text(index, optional_text(column));
            let fields = resolved_match_fields(index, optional_text(column))->Ok_0;
            field_clauses_are_sound(index, fields, terms@, o, fields.len() as int);
            let clauses = field_clauses(index, fields, terms@, o, fields.len() as int)->Ok_0;
            if clauses.len() == 1 {
                assert(sound(index, clauses[0].1));
            }
        },
        QuerySpec::MultiMatch {
            terms,
            columns,
            boosts,
            operator,
            fuzziness,
            max_expansions,
            prefix_length,
        } => {
            let o = FieldMatchOptions {
                operator,
                boost: Score { bits: crate::score::ONE_BITS },
                fuzziness,
                max_expansions,
                prefix_length,
            };
            column_clauses_are_sound(
                index,
                text_views(columns@),
                boosts@,
                terms@,
                o,
                columns@.len() as int,
            );
        },
        QuerySpec::MatchPhrase { column, terms, slop } => {
            resolved_field_is_text(index, optional_text(column));
        },
        QuerySpec::Boolean { should, must, must_not, queries } => {
            child_clauses_are_sound(index, Occur::Should, should@, should@.len() as int);
            child_clauses_are_sound(index, Occur::Must, must@, must@.len() as int);
            child_clauses_are_sound(index, Occur::MustNot, must_not@, must_not@.len() as int);
            pair_clauses_are_sound(index, queries@, queries@.len() as int);
        },
        QuerySpec::Boost { positive, negative, negative_boost } => {
            plan_is_sound(index, *positive);
            plan_is_sound(index, *negative);
        },
    }
}

proof fn child_clauses_are_sound(
    index: IndexModel,
    occur: Occur,
    queries: Seq<QuerySpec>,
    n: int,
)
    requires
        n <= queries.len(),
        child_clauses(index, occur, queries, n) is Ok,
    ensures
        all_sound(index, child_clauses(index, occur, queries, n)->Ok_0),
    decreases queries, n,
{
    if n > 0 {
        child_clauses_are_sound(index, occur, queries, n - 1);
        plan_is_sound(index, queries[n - 1]);
    }
}

proof fn pair_clauses_are_sound(
    index: IndexModel,
    queries: Seq<(BooleanOccur, QuerySpec)>,
    n: int,
)
    requires
        n <= queries.len(),
        pair_clauses(index, queries, n) is Ok,
    ensures
        all_sound(index, pair_clauses(index, queries, n)->Ok_0),
    decreases queries, n,
{
    if n > 0 {
        pair_clauses_are_sound(index, queries, n - 1);
        plan_is_sound(index, queries[n - 1].1);
    }
}

/// A match on a configured column is accepted whatever its text, as long as its options are.
pub proof fn match_on_column_is_accepted(
    index: IndexModel,
    column: Seq<char>,
    terms: Seq<char>,
    o: FieldMatchOptions,
)
    requires
        trimmed(column).len() > 0,
        index.config.text_fields.contains(trimmed(column)),
        field_id(index.fields, trimmed(column)) is Some,
        match_options_problem(o.fuzziness, o.max_expansions) is None,
        boost_problem(o.boost) is None,
    ensures
        match_plan(index, Some(column), terms, o) == field_match_plan(
            index,
            field_id(index.fields, trimmed(column))->Some_0,
            terms,
            o,
        ),
        match_plan(index, Some(column), terms, o) is Ok,
{
    let field = field_id(index.fields, trimmed(column))->Some_0;
    let fields = seq![field];
    let tokens = analyzed(lexicon(), index.stages, terms);
    tokens_are_planned(field, tokens, o, tokens.len() as int);
    assert(field_match_plan(index, field, terms, o) is Ok);
    assert(field_clauses(index, fields, terms, o, 0) is Ok);
    let p = field_match_plan(index, field, terms, o)->Ok_0;
    assert(field_clauses(index, fields, terms, o, 1)->Ok_0 =~= seq![(Occur::Should, p)]);
}

proof fn tokens_are_planned(field: u32, tokens: Seq<Seq<char>>, o: FieldMatchOptions, n: int)
    requires
        match_options_problem(o.fuzziness, o.max_expansions) is None,
    ensures
        token_clauses(field, tokens, o, n) is Ok,
        forall|t: Seq<char>| #[trigger] token_plan(field, t, o) is Ok,
    decreases n,
{
    if n > 0 {
        tokens_are_planned(field, tokens, o, n - 1);
    }
}

/// Where a query gives no fuzziness, a token is looked up exactly if it has at most two characters.
pub proof fn short_tokens_are_exact(field: u32, token: Seq<char>, o: FieldMatchOptions)
    requires
        o.fuzziness is None,
    ensures
        token_plan(field, token, o) is Ok,
        token_plan(field, token, o)->Ok_0 is Term <==> token.len() <= 2,
        token_plan(field, token, o)->Ok_0 is Fuzzy <==> token.len() > 2,
{
}

/// What a quoted text stands for, read from behind its opening quote: a backslash makes the next
/// character an ordinary one, and a double quote ends the text. Gives the text and what follows.
pub open spec fn unquoted(s: Seq<char>) -> Option<(Seq<char>, Seq<char>)>
    decreases s.len(),
{
    if s.len() == 0 {
        None
    } else if s[0] == '"' {
        Some((Seq::empty(), s.skip(1)))
    } else {
        let step: int = if s[0] == '\\' && s.len() > 1 {
            2
        } else {
            1
        };
        match unquoted(s.skip(step)) {
            Some((text, rest)) => Some((seq![s[step - 1]] + text, rest)),
            None => None,
        }
    }
}

proof fn replaced_concat(a: Seq<char>, b: Seq<char>, c: char, by: Seq<char>)
    ensures
        replaced(a + b, c, by) == replaced(a, c, by) + replaced(b, c, by),
    decreases b.len(),
{
    if b.len() == 0 {
        assert(a + b =~= a);
        assert(replaced(b, c, by) =~= Seq::<char>::empty());
        assert(replaced(a, c, by) + replaced(b, c, by) =~= replaced(a, c, by));
    } else {
        replaced_concat(a, b.drop_last(), c, by);
        assert((a + b).drop_last() =~= a + b.drop_last());
        assert((a + b).last() == b.last());
        assert(replaced(a + b, c, by) =~= replaced(a, c, by) + replaced(b, c, by));
    }
}

proof fn replaced_one(x: char, c: char, by: Seq<char>)
    ensures
        replaced(seq![x], c, by) == (if x == c {
            by
        } else {
            seq![x]
        }),
{
    assert(seq![x].drop_last() =~= Seq::<char>::empty());
    assert(replaced(seq![x].drop_last(), c, by) =~= Seq::<char>::empty());
    assert(Seq::<char>::empty() + by =~= by);
    assert(Seq::<char>::empty().push(x) =~= seq![x]);
}

proof fn escaped_first(x: char, rest: Seq<char>)
    ensures
        escaped(seq![x] + rest) == (if x == '\\' || x == '"' {
            seq!['\\', x]
        } else {
            seq![x]
        }) + escaped(rest),
{
    reveal_strlit("\\\\");
    reveal_strlit("\\\"");
    let two = "\\\\"@;
    let quote = "\\\""@;
    assert(two =~= seq!['\\', '\\']);
    assert(quote =~= seq!['\\', '"']);
    replaced_concat(seq![x], rest, '\\', two);
    replaced_one(x, '\\', two);
    let head = replaced(seq![x], '\\', two);
    let tail = replaced(rest, '\\', two);
    replaced_concat(head, tail, '"', quote);
    if x == '\\' {
        assert(two =~= seq!['\\'] + seq!['\\']);
        replaced_concat(seq!['\\'], seq!['\\'], '"', quote);
        replaced_one('\\', '"', quote);
        assert(replaced(head, '"', quote) =~= seq!['\\', '\\']);
    } else {
        replaced_one(x, '"', quote);
    }
}

/// Reading a quoted text gives back what was escaped, whatever stands behind the closing quote.
pub proof fn escaping_reads_back(terms: Seq<char>, rest: Seq<char>)
    ensures
        unquoted(escaped(terms) + seq!['"'] + rest) == Some((terms, rest)),
    decreases terms.len(),
{
    let all = escaped(terms) + seq!['"'] + rest;
    if terms.len() == 0 {
        assert(replaced(terms, '\\', "\\\\"@) =~= Seq::<char>::empty());
        assert(escaped(terms) =~= Seq::<char>::empty());
        assert(all[0] == '"');
        assert(all.skip(1) =~= rest);
        assert(terms =~= Seq::<char>::empty());
    } else {
        let x = terms[0];
        let tail = terms.skip(1);
        assert(terms =~= seq![x] + tail);
        escaped_first(x, tail);
        escaping_reads_back(tail, rest);
        let inner = escaped(tail) + seq!['"'] + rest;
        if x == '\\' || x == '"' {
            assert(all =~= seq!['\\', x] + inner);
            assert(all.skip(2) =~= inner);
        } else {
            assert(all =~= seq![x] + inner);
            assert(all.skip(1) =~= inner);
        }
        assert(seq![x] + tail =~= terms);
    }
}

/// The text that a phrase is handed to the query parser in is one quoted text, which reads as the
/// phrase, followed by the slop if there is any: no character of the phrase can end it early.
pub proof fn phrase_text_reads_back(terms: Seq<char>, slop: u32)
    ensures
        phrase_text(terms, slop).len() > 0,
        phrase_text(terms, slop)[0] == '"',
        unquoted(phrase_text(terms, slop).skip(1)) == Some(
            (
                terms,
                if slop == 0 {
                    Seq::empty()
                } else {
                    seq!['~'] + decimal(slop as nat)
                },
            ),
        ),
{
    reveal_strlit("\"");
    reveal_strlit("\"~");
    reveal_strlit("");
    let rest = if slop == 0 {
        Seq::<char>::empty()
    } else {
        seq!['~'] + decimal(slop as nat)
    };
    escaping_reads_back(terms, rest);
    assert(phrase_text(terms, slop) =~= seq!['"'] + (escaped(terms) + seq!['"'] + rest));
    assert(phrase_text(terms, slop).skip(1) =~= escaped(terms) + seq!['"'] + rest);
}

} // verus!

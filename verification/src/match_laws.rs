//! What the plans of matches and phrases look for, in terms of what the queries say.
use crate::analyzer::{analyzed, lexicon, registered_name};
use crate::error::{ErrorView, FtIndexError};
use crate::plan_laws::{phrase_text_reads_back, unquoted};
use crate::plan_model::{
    boosts_problem, checked_phrase_plan, children_can_run, column_boost, column_clauses,
    field_clauses, field_match_plan, field_tokens_plan, match_options_problem, match_plan,
    multi_match_options_problem, multi_match_plan, named_column, optional_text, pairs_can_run,
    parse_problem, phrase_plan, phrase_text, plan, query_can_run, resolved_field,
    resolved_match_fields, resolved_texts, text_can_run, token_clauses, token_plan, tokens_plan,
    FieldMatchOptions, IndexModel,
};
use crate::planner::plan_result_is;
use crate::query::{BooleanOccur, MatchOperator, PlanView, QueryPlan, QuerySpec};
use crate::schema::field_id;
use crate::score::{accepted_boosts, accepted_negative_boosts, effective_boosts, Score};
use crate::text::{decimal, text_views, trimmed};
use tantivy::query::Occur;
use vstd::prelude::*;

verus! {

/// Whether a plan looks a token up in a field as a match with these options does. Without edits it
/// is looked up as it is. Otherwise tokens within the given number of edits are looked up or, where
/// none is given, within one edit up to five characters and two beyond; up to two characters none
/// is allowed then. They must begin as the token does, for the given number of characters.
pub open spec fn is_lookup(
    p: PlanView,
    field: u32,
    token: Seq<char>,
    fuzziness: Option<u8>,
    max_expansions: usize,
    prefix_length: u32,
) -> bool {
    let edits: int = match fuzziness {
        Some(given) => given as int,
        None => if token.len() <= 2 {
            0
        } else if token.len() <= 5 {
            1
        } else {
            2
        },
    };
    let fixed: int = if prefix_length < token.len() {
        prefix_length as int
    } else {
        token.len() as int
    };
    if edits == 0 {
        p == (PlanView::Term { field, token })
    } else {
        p == (PlanView::Fuzzy {
            field,
            token,
            distance: edits as u8,
            prefix: token.take(fixed),
            max_expansions,
        })
    }
}

/// Whether a plan looks the tokens up in a field: none matches nothing, one is looked up by itself,
/// and several are clauses in their order, all of which must match where the operator is And, and
/// any of which may where it is Or.
pub open spec fn looks_up_all(
    p: PlanView,
    field: u32,
    tokens: Seq<Seq<char>>,
    operator: MatchOperator,
    fuzziness: Option<u8>,
    max_expansions: usize,
    prefix_length: u32,
) -> bool {
    if tokens.len() == 0 {
        p == PlanView::Empty
    } else if tokens.len() == 1 {
        is_lookup(p, field, tokens[0], fuzziness, max_expansions, prefix_length)
    } else {
        p matches PlanView::Boolean(clauses) && clauses.len() == tokens.len() && forall|i: int|
            0 <= i < tokens.len() ==> {
                &&& operator == MatchOperator::And ==> (#[trigger] clauses[i]).0 == Occur::Must
                &&& operator == MatchOperator::Or ==> clauses[i].0 == Occur::Should
                &&& is_lookup(
                    clauses[i].1,
                    field,
                    tokens[i],
                    fuzziness,
                    max_expansions,
                    prefix_length,
                )
            }
    }
}

/// A token is planned exactly if the number of edits that is given for it, if any, is at most two,
/// and it is then looked up.
pub proof fn token_is_looked_up(field: u32, token: Seq<char>, o: FieldMatchOptions)
    ensures
        token_plan(field, token, o) is Ok <==> (o.fuzziness matches Some(given) ==> given <= 2),
        token_plan(field, token, o) matches Ok(p) ==> is_lookup(
            p,
            field,
            token,
            o.fuzziness,
            o.max_expansions,
            o.prefix_length,
        ),
{
    if o.prefix_length as int >= token.len() {
        assert(token.take(token.len() as int) =~= token);
    }
}

proof fn token_clauses_look_up(
    field: u32,
    tokens: Seq<Seq<char>>,
    o: FieldMatchOptions,
    n: int,
)
    requires
        0 <= n <= tokens.len(),
        token_clauses(field, tokens, o, n) is Ok,
    ensures
        token_clauses(field, tokens, o, n)->Ok_0.len() == n,
        forall|i: int|
            0 <= i < n ==> {
                let clause = #[trigger] token_clauses(field, tokens, o, n)->Ok_0[i];
                &&& o.operator == MatchOperator::And ==> clause.0 == Occur::Must
                &&& o.operator == MatchOperator::Or ==> clause.0 == Occur::Should
                &&& token_plan(field, tokens[i], o) == Ok::<PlanView, ErrorView>(clause.1)
            },
    decreases n,
{
    if n > 0 {
        token_clauses_look_up(field, tokens, o, n - 1);
    }
}

proof fn tokens_are_looked_up(field: u32, tokens: Seq<Seq<char>>, o: FieldMatchOptions)
    requires
        tokens_plan(field, tokens, o) is Ok,
    ensures
        looks_up_all(
            tokens_plan(field, tokens, o)->Ok_0,
            field,
            tokens,
            o.operator,
            o.fuzziness,
            o.max_expansions,
            o.prefix_length,
        ),
{
    if tokens.len() == 1 {
        token_is_looked_up(field, tokens[0], o);
    } else if tokens.len() > 1 {
        token_clauses_look_up(field, tokens, o, tokens.len() as int);
        let clauses = token_clauses(field, tokens, o, tokens.len() as int)->Ok_0;
        assert forall|i: int| 0 <= i < tokens.len() implies is_lookup(
            (#[trigger] clauses[i]).1,
            field,
            tokens[i],
            o.fuzziness,
            o.max_expansions,
            o.prefix_length,
        ) by {
            token_is_looked_up(field, tokens[i], o);
        }
    }
}

proof fn all_tokens_are_planned(field: u32, tokens: Seq<Seq<char>>, o: FieldMatchOptions, n: int)
    requires
        0 <= n <= tokens.len(),
        o.fuzziness matches Some(given) ==> given <= 2,
    ensures
        token_clauses(field, tokens, o, n) is Ok,
    decreases n,
{
    if n > 0 {
        all_tokens_are_planned(field, tokens, o, n - 1);
        token_is_looked_up(field, tokens[n - 1], o);
    }
}

/// Tokens in a field are planned if the number of edits that is given, if any, is at most two. With
/// the boost one the plan looks them all up; with a boost that differs from it, the plan is the
/// same one boosted.
pub proof fn tokens_are_boosted(
    field: u32,
    tokens: Seq<Seq<char>>,
    o: FieldMatchOptions,
    boost: Score,
)
    requires
        o.boost.bits == 0x3f80_0000,
        0 < boost.bits < 0x7f80_0000,
        o.fuzziness matches Some(given) ==> given <= 2,
    ensures
        field_tokens_plan(field, tokens, o) matches Ok(p) && looks_up_all(
            p,
            field,
            tokens,
            o.operator,
            o.fuzziness,
            o.max_expansions,
            o.prefix_length,
        ) && field_tokens_plan(field, tokens, FieldMatchOptions { boost, ..o }) == Ok::<
            PlanView,
            ErrorView,
        >(
            if boost.bits < 0x3f7f_fffe || boost.bits > 0x3f80_0001 {
                PlanView::Boosted { query: Box::new(p), boost }
            } else {
                p
            },
        ),
{
    let b = FieldMatchOptions { boost, ..o };
    effective_boosts(o.boost);
    effective_boosts(boost);
    all_tokens_are_planned(field, tokens, o, tokens.len() as int);
    if tokens.len() == 1 {
        token_is_looked_up(field, tokens[0], o);
    }
    options_without_boost(field, tokens, o, b, tokens.len() as int);
    tokens_are_looked_up(field, tokens, o);
}

/// The boost changes nothing of the plans of the tokens.
proof fn options_without_boost(
    field: u32,
    tokens: Seq<Seq<char>>,
    o: FieldMatchOptions,
    b: FieldMatchOptions,
    n: int,
)
    requires
        0 <= n <= tokens.len(),
        b == (FieldMatchOptions { boost: b.boost, ..o }),
    ensures
        token_clauses(field, tokens, o, n) == token_clauses(field, tokens, b, n),
    decreases n,
{
    if n > 0 {
        options_without_boost(field, tokens, o, b, n - 1);
    }
}

/// The field of a column: the one that it names, with space around the name, or the only text field
/// where it names none. It must be a text field that the schema has.
pub proof fn column_means_its_field(index: IndexModel, column: Option<Seq<char>>)
    ensures
        ({
            let texts = index.config.text_fields;
            let r = resolved_field(index, column);
            match column {
                Some(c) if trimmed(c).len() > 0 => {
                    &&& r is Ok <==> texts.contains(trimmed(c)) && field_id(
                        index.fields,
                        trimmed(c),
                    ) is Some
                    &&& r matches Ok(field) ==> field_id(index.fields, trimmed(c)) == Some(field)
                },
                _ => {
                    &&& r is Ok <==> texts.len() == 1 && field_id(index.fields, texts[0]) is Some
                    &&& r matches Ok(field) ==> field_id(index.fields, texts[0]) == Some(field)
                },
            }
        }),
        resolved_field(index, column) matches Err(e) ==> e is InvalidQuery,
{
    let texts = index.config.text_fields;
    if texts.len() == 1 {
        assert(texts.contains(texts[0]));
    }
}

proof fn one_field_clause(
    index: IndexModel,
    field: u32,
    terms: Seq<char>,
    o: FieldMatchOptions,
)
    ensures
        field_clauses(index, seq![field], terms, o, 1) is Ok <==> field_match_plan(
            index,
            field,
            terms,
            o,
        ) is Ok,
        field_clauses(index, seq![field], terms, o, 1) matches Ok(clauses) ==> clauses.len() == 1
            && clauses[0] == (
            Occur::Should,
            field_match_plan(index, field, terms, o)->Ok_0,
        ),
        field_clauses(index, seq![field], terms, o, 1) is Err ==> field_clauses(
            index,
            seq![field],
            terms,
            o,
            1,
        )->Err_0 == field_match_plan(index, field, terms, o)->Err_0,
{
    assert(field_clauses(index, seq![field], terms, o, 0) is Ok);
    assert(seq![field][0] == field);
}

/// A match that names a column has a plan exactly if the column is a text field that the schema has,
/// the boost is a positive number, at most two edits are asked for and at least one expansion is
/// allowed. With the boost one the plan looks up, in the field of that column and as the query says,
/// all tokens that the index cuts the text into.
pub proof fn match_looks_up_its_tokens(
    index: IndexModel,
    query: QuerySpec,
    column: String,
    terms: String,
    operator: MatchOperator,
    boost: Score,
    fuzziness: Option<u8>,
    max_expansions: usize,
    prefix_length: u32,
)
    requires
        query == (QuerySpec::Match {
            column: Some(column),
            terms,
            operator,
            boost,
            fuzziness,
            max_expansions,
            prefix_length,
        }),
        trimmed(column@).len() > 0,
    ensures
        plan(index, query) is Ok <==> {
            &&& index.config.text_fields.contains(trimmed(column@))
            &&& field_id(index.fields, trimmed(column@)) is Some
            &&& 0 < boost.bits < 0x7f80_0000
            &&& fuzziness matches Some(given) ==> given <= 2
            &&& max_expansions > 0
        },
        plan(index, query) is Ok && boost.bits == 0x3f80_0000 ==> looks_up_all(
            plan(index, query)->Ok_0,
            field_id(index.fields, trimmed(column@))->Some_0,
            analyzed(lexicon(), index.stages, terms@),
            operator,
            fuzziness,
            max_expansions,
            prefix_length,
        ),
{
    let o = FieldMatchOptions { operator, boost, fuzziness, max_expansions, prefix_length };
    let plain = FieldMatchOptions { boost: Score { bits: 0x3f80_0000 }, ..o };
    column_means_its_field(index, Some(column@));
    accepted_boosts(boost);
    assert(plan(index, query) == match_plan(index, Some(column@), terms@, o));
    if resolved_field(index, Some(column@)) is Ok {
        let field = resolved_field(index, Some(column@))->Ok_0;
        let tokens = analyzed(lexicon(), index.stages, terms@);
        one_field_clause(index, field, terms@, o);
        if 0 < boost.bits < 0x7f80_0000 && (fuzziness matches Some(given) ==> given <= 2) {
            tokens_are_boosted(field, tokens, plain, boost);
            assert(FieldMatchOptions { boost, ..plain } == o);
        }
    }
}

/// A boost that differs from one changes nothing but that it is put around the plan of the same
/// match on a column without it.
pub proof fn boosted_match_is_the_match_boosted(
    index: IndexModel,
    query: QuerySpec,
    plain: QuerySpec,
    column: String,
    terms: String,
    operator: MatchOperator,
    boost: Score,
    fuzziness: Option<u8>,
    max_expansions: usize,
    prefix_length: u32,
)
    requires
        query == (QuerySpec::Match {
            column: Some(column),
            terms,
            operator,
            boost,
            fuzziness,
            max_expansions,
            prefix_length,
        }),
        plain == (QuerySpec::Match {
            column: Some(column),
            terms,
            operator,
            boost: Score { bits: 0x3f80_0000 },
            fuzziness,
            max_expansions,
            prefix_length,
        }),
        trimmed(column@).len() > 0,
        plan(index, query) is Ok,
    ensures
        plan(index, plain) is Ok,
        plan(index, query)->Ok_0 == (if boost.bits < 0x3f7f_fffe || boost.bits > 0x3f80_0001 {
            PlanView::Boosted { query: Box::new(plan(index, plain)->Ok_0), boost }
        } else {
            plan(index, plain)->Ok_0
        }),
{
    let o = FieldMatchOptions { operator, boost, fuzziness, max_expansions, prefix_length };
    let p = FieldMatchOptions { boost: Score { bits: 0x3f80_0000 }, ..o };
    match_looks_up_its_tokens(
        index,
        query,
        column,
        terms,
        operator,
        boost,
        fuzziness,
        max_expansions,
        prefix_length,
    );
    match_looks_up_its_tokens(
        index,
        plain,
        column,
        terms,
        operator,
        p.boost,
        fuzziness,
        max_expansions,
        prefix_length,
    );
    column_means_its_field(index, Some(column@));
    accepted_boosts(boost);
    accepted_boosts(p.boost);
    let field = resolved_field(index, Some(column@))->Ok_0;
    one_field_clause(index, field, terms@, o);
    one_field_clause(index, field, terms@, p);
    tokens_are_boosted(field, analyzed(lexicon(), index.stages, terms@), p, boost);
    assert(FieldMatchOptions { boost, ..p } == o);
}

proof fn texts_are_resolved(index: IndexModel, n: int)
    requires
        0 <= n <= index.config.text_fields.len(),
        resolved_texts(index, n) is Ok,
    ensures
        resolved_texts(index, n)->Ok_0.len() == n,
        forall|i: int|
            0 <= i < n ==> resolved_field(
                index,
                Some(#[trigger] index.config.text_fields[i]),
            ) == Ok::<u32, ErrorView>(resolved_texts(index, n)->Ok_0[i]),
    decreases n,
{
    if n > 0 {
        texts_are_resolved(index, n - 1);
    }
}

proof fn field_clauses_are_matches(
    index: IndexModel,
    fields: Seq<u32>,
    terms: Seq<char>,
    o: FieldMatchOptions,
    n: int,
)
    requires
        0 <= n <= fields.len(),
        field_clauses(index, fields, terms, o, n) is Ok,
    ensures
        field_clauses(index, fields, terms, o, n)->Ok_0.len() == n,
        forall|i: int|
            0 <= i < n ==> {
                let clause = #[trigger] field_clauses(index, fields, terms, o, n)->Ok_0[i];
                &&& clause.0 == Occur::Should
                &&& field_match_plan(index, fields[i], terms, o) == Ok::<PlanView, ErrorView>(
                    clause.1,
                )
            },
    decreases n,
{
    if n > 0 {
        field_clauses_are_matches(index, fields, terms, o, n - 1);
    }
}

/// A match that names no column looks in every text field: its plan is that of the same match on the
/// only text field or, where there are several, one clause for each of them in their order, any of
/// which may match, and each with the plan of the same match on that field.
pub proof fn match_without_column_looks_everywhere(
    index: IndexModel,
    query: QuerySpec,
    on_field: QuerySpec,
    column: Option<String>,
    name: String,
    i: int,
    terms: String,
    operator: MatchOperator,
    boost: Score,
    fuzziness: Option<u8>,
    max_expansions: usize,
    prefix_length: u32,
)
    requires
        query == (QuerySpec::Match {
            column,
            terms,
            operator,
            boost,
            fuzziness,
            max_expansions,
            prefix_length,
        }),
        column matches Some(c) ==> trimmed(c@).len() == 0,
        on_field == (QuerySpec::Match {
            column: Some(name),
            terms,
            operator,
            boost,
            fuzziness,
            max_expansions,
            prefix_length,
        }),
        0 <= i < index.config.text_fields.len(),
        name@ == index.config.text_fields[i],
        trimmed(name@).len() > 0,
        plan(index, query) is Ok,
    ensures
        plan(index, on_field) is Ok,
        index.config.text_fields.len() == 1 ==> plan(index, query) == plan(index, on_field),
        index.config.text_fields.len() > 1 ==> {
            &&& plan(index, query)->Ok_0 matches PlanView::Boolean(clauses)
            &&& clauses.len() == index.config.text_fields.len()
            &&& clauses[i] == (Occur::Should, plan(index, on_field)->Ok_0)
        },
{
    let o = FieldMatchOptions { operator, boost, fuzziness, max_expansions, prefix_length };
    let n = index.config.text_fields.len() as int;
    let fields = resolved_texts(index, n)->Ok_0;
    assert(named_column(optional_text(column)) is None);
    assert(plan(index, query) == match_plan(index, optional_text(column), terms@, o));
    assert(plan(index, on_field) == match_plan(index, Some(name@), terms@, o));
    texts_are_resolved(index, n);
    field_clauses_are_matches(index, fields, terms@, o, n);
    let clause = field_clauses(index, fields, terms@, o, n)->Ok_0[i];
    assert(resolved_field(index, Some(index.config.text_fields[i])) == Ok::<u32, ErrorView>(
        fields[i],
    ));
    one_field_clause(index, fields[i], terms@, o);
    assert(resolved_match_fields(index, Some(name@)) == Ok::<Seq<u32>, ErrorView>(
        seq![fields[i]],
    ));
}

proof fn column_clauses_are_matches(
    index: IndexModel,
    columns: Seq<Seq<char>>,
    boosts: Seq<Score>,
    terms: Seq<char>,
    o: FieldMatchOptions,
    n: int,
)
    requires
        0 <= n <= columns.len(),
        column_clauses(index, columns, boosts, terms, o, n) is Ok,
    ensures
        column_clauses(index, columns, boosts, terms, o, n)->Ok_0.len() == n,
        forall|i: int|
            0 <= i < n ==> {
                let clause = #[trigger] column_clauses(
                    index,
                    columns,
                    boosts,
                    terms,
                    o,
                    n,
                )->Ok_0[i];
                &&& clause.0 == Occur::Should
                &&& resolved_field(index, Some(columns[i])) is Ok
                &&& field_match_plan(
                    index,
                    resolved_field(index, Some(columns[i]))->Ok_0,
                    terms,
                    FieldMatchOptions { boost: column_boost(boosts, i), ..o },
                ) == Ok::<PlanView, ErrorView>(clause.1)
            },
    decreases n,
{
    if n > 0 {
        column_clauses_are_matches(index, columns, boosts, terms, o, n - 1);
    }
}

/// A match in several columns has one clause for each of them in their order, any of which may
/// match. Each has the plan that a match on that column alone has with the same text, operator,
/// edits, expansions and prefix, and with the boost that is given for the column, or one where none
/// are given.
pub proof fn multi_match_is_a_match_on_each_column(
    index: IndexModel,
    query: QuerySpec,
    on_column: QuerySpec,
    terms: String,
    columns: Vec<String>,
    boosts: Vec<Score>,
    operator: MatchOperator,
    fuzziness: Option<u8>,
    max_expansions: usize,
    prefix_length: u32,
    i: int,
)
    requires
        query == (QuerySpec::MultiMatch {
            terms,
            columns,
            boosts,
            operator,
            fuzziness,
            max_expansions,
            prefix_length,
        }),
        0 <= i < columns@.len(),
        trimmed(columns@[i]@).len() > 0 || trimmed(index.config.text_fields[0])
            == index.config.text_fields[0],
        on_column == (QuerySpec::Match {
            column: Some(columns@[i]),
            terms,
            operator,
            boost: if boosts@.len() > 0 {
                boosts@[i]
            } else {
                Score { bits: 0x3f80_0000 }
            },
            fuzziness,
            max_expansions,
            prefix_length,
        }),
        plan(index, query) is Ok,
    ensures
        boosts@.len() == 0 || boosts@.len() == columns@.len(),
        plan(index, on_column) is Ok,
        plan(index, query)->Ok_0 matches PlanView::Boolean(clauses) && clauses.len()
            == columns@.len() && clauses[i] == (Occur::Should, plan(index, on_column)->Ok_0),
{
    let one = Score { bits: 0x3f80_0000 };
    let names = text_views(columns@);
    let boost = if boosts@.len() > 0 {
        boosts@[i]
    } else {
        one
    };
    let o = FieldMatchOptions { operator, boost: one, fuzziness, max_expansions, prefix_length };
    let b = FieldMatchOptions { boost, ..o };
    assert(names.len() == columns@.len());
    assert(names[i] == columns@[i]@);
    assert(plan(index, query) == multi_match_plan(index, names, boosts@, terms@, o));
    assert(plan(index, on_column) == match_plan(index, Some(names[i]), terms@, b));
    column_clauses_are_matches(index, names, boosts@, terms@, o, names.len() as int);
    let clause = column_clauses(
        index,
        names,
        boosts@,
        terms@,
        o,
        names.len() as int,
    )->Ok_0[i];
    assert(column_boost(boosts@, i) == boost);
    let field = resolved_field(index, Some(names[i]))->Ok_0;
    one_field_clause(index, field, terms@, b);
    if trimmed(names[i]).len() == 0 {
        let texts = index.config.text_fields;
        column_means_its_field(index, Some(names[i]));
        column_means_its_field(index, Some(texts[0]));
        assert(texts.contains(texts[0]));
        assert(resolved_texts(index, 0) == Ok::<Seq<u32>, ErrorView>(Seq::empty()));
        assert(resolved_texts(index, 1)->Ok_0 =~= seq![field]);
    }
}

proof fn accepted_columns(
    index: IndexModel,
    columns: Seq<Seq<char>>,
    boosts: Seq<Score>,
    terms: Seq<char>,
    o: FieldMatchOptions,
    n: int,
)
    requires
        0 <= n <= columns.len(),
        boosts.len() == 0 || boosts.len() == columns.len(),
        forall|k: int| 0 <= k < boosts.len() ==> 0 < (#[trigger] boosts[k]).bits < 0x7f80_0000,
        o.fuzziness matches Some(given) ==> given <= 2,
    ensures
        column_clauses(index, columns, boosts, terms, o, n) is Ok <==> forall|k: int|
            0 <= k < n ==> resolved_field(index, Some(#[trigger] columns[k])) is Ok,
    decreases n,
{
    if n > 0 {
        accepted_columns(index, columns, boosts, terms, o, n - 1);
        let boost = column_boost(boosts, n - 1);
        if boosts.len() > 0 {
            assert(0 < boosts[n - 1].bits < 0x7f80_0000);
        }
        accepted_boosts(boost);
        if resolved_field(index, Some(columns[n - 1])) is Ok {
            let field = resolved_field(index, Some(columns[n - 1]))->Ok_0;
            let plain = FieldMatchOptions { boost: Score { bits: 0x3f80_0000 }, ..o };
            tokens_are_boosted(field, analyzed(lexicon(), index.stages, terms), plain, boost);
            assert(FieldMatchOptions { boost, ..plain } == FieldMatchOptions { boost, ..o });
        }
    }
}

proof fn refused_boosts(boosts: Seq<Score>, n: int)
    requires
        0 <= n <= boosts.len(),
    ensures
        boosts_problem(boosts, n) is None <==> forall|k: int|
            0 <= k < n ==> 0 < (#[trigger] boosts[k]).bits < 0x7f80_0000,
    decreases n,
{
    if n > 0 {
        refused_boosts(boosts, n - 1);
        accepted_boosts(boosts[n - 1]);
    }
}

/// A match in several columns has a plan exactly if there is a column, there are no boosts or one
/// for each column, every boost is a positive number, at most two edits are asked for, at least one
/// expansion is allowed, and every column means a field.
pub proof fn accepted_multi_matches(
    index: IndexModel,
    query: QuerySpec,
    terms: String,
    columns: Vec<String>,
    boosts: Vec<Score>,
    operator: MatchOperator,
    fuzziness: Option<u8>,
    max_expansions: usize,
    prefix_length: u32,
)
    requires
        query == (QuerySpec::MultiMatch {
            terms,
            columns,
            boosts,
            operator,
            fuzziness,
            max_expansions,
            prefix_length,
        }),
    ensures
        plan(index, query) is Ok <==> {
            &&& columns@.len() > 0
            &&& boosts@.len() == 0 || boosts@.len() == columns@.len()
            &&& forall|k: int|
                0 <= k < boosts@.len() ==> 0 < (#[trigger] boosts@[k]).bits < 0x7f80_0000
            &&& fuzziness matches Some(given) ==> given <= 2
            &&& max_expansions > 0
            &&& forall|k: int|
                0 <= k < columns@.len() ==> resolved_field(
                    index,
                    Some((#[trigger] columns@[k])@),
                ) is Ok
        },
{
    let names = text_views(columns@);
    let o = FieldMatchOptions {
        operator,
        boost: Score { bits: 0x3f80_0000 },
        fuzziness,
        max_expansions,
        prefix_length,
    };
    assert(names.len() == columns@.len());
    assert forall|k: int| 0 <= k < names.len() implies #[trigger] names[k] == columns@[k]@ by {}
    assert forall|k: int| 0 <= k < names.len() implies names[k] == (#[trigger] columns@[k])@ by {}
    assert(plan(index, query) == multi_match_plan(index, names, boosts@, terms@, o));
    refused_boosts(boosts@, boosts@.len() as int);
    if multi_match_options_problem(names, boosts@, fuzziness, max_expansions) is None {
        accepted_columns(index, names, boosts@, terms@, o, names.len() as int);
    }
}

/// Without positions a phrase is refused. With them, its plan looks for the phrase in the field of
/// the column that it names, or in the only text field where it names none. The query text of the
/// plan is the quoted phrase, from which the phrase itself is read back, and the slop behind it.
pub proof fn phrase_is_looked_for_in_its_column(
    index: IndexModel,
    query: QuerySpec,
    column: Option<String>,
    terms: String,
    slop: u32,
)
    requires
        query == (QuerySpec::MatchPhrase { column, terms, slop }),
    ensures
        !index.config.tokenizer.with_position ==> plan(index, query) == Err::<PlanView, ErrorView>(
            ErrorView::InvalidQuery("phrase query requires positions"@),
        ),
        plan(index, query) matches Ok(p) ==> {
            &&& p matches PlanView::Phrase { field, query_text }
            &&& match column {
                Some(c) if trimmed(c@).len() > 0 => {
                    &&& index.config.text_fields.contains(trimmed(c@))
                    &&& field_id(index.fields, trimmed(c@)) == Some(field)
                },
                _ => {
                    &&& index.config.text_fields.len() == 1
                    &&& field_id(index.fields, index.config.text_fields[0]) == Some(field)
                },
            }
            &&& query_text.len() > 0
            &&& query_text[0] == '"'
            &&& unquoted(query_text.skip(1)) == Some(
                (
                    terms@,
                    if slop == 0 {
                        Seq::empty()
                    } else {
                        seq!['~'] + decimal(slop as nat)
                    },
                ),
            )
        },
{
    assert(plan(index, query) == phrase_plan(index, optional_text(column), terms@, slop));
    column_means_its_field(index, optional_text(column));
    phrase_text_reads_back(terms@, slop);
}

/// A phrase on an index with positions is refused only because its column means no field, or because
/// the query parser refuses it.
pub proof fn refused_phrases(
    index: IndexModel,
    query: QuerySpec,
    column: Option<String>,
    terms: String,
    slop: u32,
)
    requires
        query == (QuerySpec::MatchPhrase { column, terms, slop }),
        index.config.tokenizer.with_position,
    ensures
        plan(index, query) is Err ==> resolved_field(index, optional_text(column)) is Err
            || parse_problem(
            index.fields,
            resolved_field(index, optional_text(column))->Ok_0,
            registered_name(index.config.tokenizer.tokenizer),
            index.stages,
            phrase_text(terms@, slop),
        ) is Some,
{
    assert(plan(index, query) == phrase_plan(index, optional_text(column), terms@, slop));
}

/// A boosting query has a plan exactly if its boost is a number from zero to one and both of its
/// queries have plans, and it is then made of these two and the boost.
pub proof fn boosting_query_demotes_its_positive(
    index: IndexModel,
    query: QuerySpec,
    positive: QuerySpec,
    negative: QuerySpec,
    negative_boost: Score,
)
    requires
        query == (QuerySpec::Boost {
            positive: Box::new(positive),
            negative: Box::new(negative),
            negative_boost,
        }),
    ensures
        plan(index, query) is Ok <==> {
            &&& negative_boost.bits <= 0x3f80_0000 || negative_boost.bits == 0x8000_0000
            &&& plan(index, positive) is Ok
            &&& plan(index, negative) is Ok
        },
        plan(index, query) matches Ok(p) ==> p == (PlanView::Demote {
            positive: Box::new(plan(index, positive)->Ok_0),
            negative: Box::new(plan(index, negative)->Ok_0),
            negative_boost,
        }),
{
    accepted_negative_boosts(negative_boost);
}

proof fn accepted_fields(
    index: IndexModel,
    fields: Seq<u32>,
    terms: Seq<char>,
    o: FieldMatchOptions,
    n: int,
)
    requires
        0 <= n <= fields.len(),
        o.fuzziness matches Some(given) ==> given <= 2,
    ensures
        field_clauses(index, fields, terms, o, n) is Ok <==> n == 0 || 0 < o.boost.bits
            < 0x7f80_0000,
    decreases n,
{
    if n > 0 {
        accepted_fields(index, fields, terms, o, n - 1);
        accepted_boosts(o.boost);
        if 0 < o.boost.bits < 0x7f80_0000 {
            let plain = FieldMatchOptions { boost: Score { bits: 0x3f80_0000 }, ..o };
            let tokens = analyzed(lexicon(), index.stages, terms);
            tokens_are_boosted(fields[n - 1], tokens, plain, o.boost);
            assert(FieldMatchOptions { boost: o.boost, ..plain } == o);
        }
    }
}

proof fn unresolved_texts(index: IndexModel, n: int)
    requires
        0 <= n <= index.config.text_fields.len(),
    ensures
        resolved_texts(index, n) is Ok <==> forall|i: int|
            0 <= i < n ==> resolved_field(
                index,
                Some(#[trigger] index.config.text_fields[i]),
            ) is Ok,
    decreases n,
{
    if n > 0 {
        unresolved_texts(index, n - 1);
    }
}

/// A match that names no column has a plan exactly if at most two edits are asked for, at least one
/// expansion is allowed, every text field is one that the schema has, and the boost is a positive
/// number or there is no text field.
pub proof fn accepted_matches_without_column(
    index: IndexModel,
    query: QuerySpec,
    column: Option<String>,
    terms: String,
    operator: MatchOperator,
    boost: Score,
    fuzziness: Option<u8>,
    max_expansions: usize,
    prefix_length: u32,
)
    requires
        query == (QuerySpec::Match {
            column,
            terms,
            operator,
            boost,
            fuzziness,
            max_expansions,
            prefix_length,
        }),
        column matches Some(c) ==> trimmed(c@).len() == 0,
    ensures
        plan(index, query) is Ok <==> {
            &&& fuzziness matches Some(given) ==> given <= 2
            &&& max_expansions > 0
            &&& forall|i: int|
                0 <= i < index.config.text_fields.len() ==> resolved_field(
                    index,
                    Some(#[trigger] index.config.text_fields[i]),
                ) is Ok
            &&& index.config.text_fields.len() == 0 || 0 < boost.bits < 0x7f80_0000
        },
{
    let o = FieldMatchOptions { operator, boost, fuzziness, max_expansions, prefix_length };
    let n = index.config.text_fields.len() as int;
    assert(plan(index, query) == match_plan(index, optional_text(column), terms@, o));
    unresolved_texts(index, n);
    if resolved_texts(index, n) is Ok && (fuzziness matches Some(given) ==> given <= 2) {
        texts_are_resolved(index, n);
        accepted_fields(index, resolved_texts(index, n)->Ok_0, terms@, o, n);
    }
}

/// Several tokens are looked up together as each of them is by itself: the plan has one clause for
/// each, in their order, which must match where the operator is And and may where it is Or, and is
/// the plan of that token alone.
pub proof fn several_tokens_are_looked_up_as_each_alone(
    field: u32,
    tokens: Seq<Seq<char>>,
    o: FieldMatchOptions,
    i: int,
)
    requires
        o.boost.bits == 0x3f80_0000,
        0 <= i < tokens.len(),
        tokens.len() >= 2,
        field_tokens_plan(field, tokens, o) is Ok,
    ensures
        field_tokens_plan(field, seq![tokens[i]], o) is Ok,
        field_tokens_plan(field, tokens, o)->Ok_0 matches PlanView::Boolean(clauses)
            && clauses.len() == tokens.len() && clauses[i] == (
            match o.operator {
                MatchOperator::And => Occur::Must,
                MatchOperator::Or => Occur::Should,
            },
            field_tokens_plan(field, seq![tokens[i]], o)->Ok_0,
        ),
{
    effective_boosts(o.boost);
    token_clauses_look_up(field, tokens, o, tokens.len() as int);
    let clause = token_clauses(field, tokens, o, tokens.len() as int)->Ok_0[i];
    assert(seq![tokens[i]][0] == tokens[i]);
}

/// A token by itself is looked up exactly or with edits. Where no number of edits is given, up to two
/// characters are looked up exactly, three to five with one edit and more with two. Otherwise as many
/// edits are allowed as are given, and none is an exact look-up. What is looked up is the token
/// itself in the given field.
pub proof fn edits_depend_on_the_length_of_the_token(
    field: u32,
    token: Seq<char>,
    o: FieldMatchOptions,
)
    requires
        o.boost.bits == 0x3f80_0000,
    ensures
        ({
            let r = field_tokens_plan(field, seq![token], o);
            &&& r is Err <==> (o.fuzziness matches Some(given) && given > 2)
            &&& r is Ok ==> {
                &&& r->Ok_0 is Term <==> (o.fuzziness == Some(0u8) || (o.fuzziness is None
                    && token.len() <= 2))
                &&& r->Ok_0 is Term ==> r->Ok_0 == (PlanView::Term { field, token })
                &&& !(r->Ok_0 is Term) ==> {
                    &&& r->Ok_0 matches PlanView::Fuzzy {
                        field: f,
                        token: t,
                        distance,
                        prefix,
                        max_expansions,
                    }
                    &&& f == field && t == token && max_expansions == o.max_expansions
                    &&& o.fuzziness matches Some(given) ==> distance == given
                    &&& o.fuzziness is None && token.len() <= 5 ==> distance == 1
                    &&& o.fuzziness is None && token.len() > 5 ==> distance == 2
                    &&& prefix.is_prefix_of(token)
                    &&& prefix.len() == o.prefix_length || (prefix == token && token.len()
                        < o.prefix_length)
                }
            }
        }),
{
    effective_boosts(o.boost);
    assert(seq![token][0] == token);
    token_is_looked_up(field, token, o);
    let n = o.prefix_length as int;
    if n < token.len() {
        assert(token.take(n) =~= token.subrange(0, n));
    } else {
        assert(token.take(token.len() as int) =~= token);
        assert(token =~= token.subrange(0, token.len() as int));
    }
}

/// Where the text of one match on a column gives several tokens and the text of another, which says
/// the same otherwise, gives one of them alone, the plan of the second is the clause for that token
/// in the plan of the first.
pub proof fn each_word_of_a_match_is_matched_as_by_itself(
    index: IndexModel,
    query: QuerySpec,
    alone: QuerySpec,
    column: String,
    terms: String,
    term: String,
    operator: MatchOperator,
    fuzziness: Option<u8>,
    max_expansions: usize,
    prefix_length: u32,
    i: int,
)
    requires
        query == (QuerySpec::Match {
            column: Some(column),
            terms,
            operator,
            boost: Score { bits: 0x3f80_0000 },
            fuzziness,
            max_expansions,
            prefix_length,
        }),
        alone == (QuerySpec::Match {
            column: Some(column),
            terms: term,
            operator,
            boost: Score { bits: 0x3f80_0000 },
            fuzziness,
            max_expansions,
            prefix_length,
        }),
        trimmed(column@).len() > 0,
        plan(index, query) is Ok,
        analyzed(lexicon(), index.stages, terms@).len() >= 2,
        0 <= i < analyzed(lexicon(), index.stages, terms@).len(),
        analyzed(lexicon(), index.stages, term@) == seq![
            analyzed(lexicon(), index.stages, terms@)[i],
        ],
    ensures
        plan(index, alone) is Ok,
        plan(index, query)->Ok_0 matches PlanView::Boolean(clauses) && clauses[i] == (
            match operator {
                MatchOperator::And => Occur::Must,
                MatchOperator::Or => Occur::Should,
            },
            plan(index, alone)->Ok_0,
        ),
{
    let boost = Score { bits: 0x3f80_0000 };
    let o = FieldMatchOptions { operator, boost, fuzziness, max_expansions, prefix_length };
    column_means_its_field(index, Some(column@));
    accepted_boosts(boost);
    match_looks_up_its_tokens(
        index,
        query,
        column,
        terms,
        operator,
        boost,
        fuzziness,
        max_expansions,
        prefix_length,
    );
    match_looks_up_its_tokens(
        index,
        alone,
        column,
        term,
        operator,
        boost,
        fuzziness,
        max_expansions,
        prefix_length,
    );
    let field = resolved_field(index, Some(column@))->Ok_0;
    one_field_clause(index, field, terms@, o);
    one_field_clause(index, field, term@, o);
    several_tokens_are_looked_up_as_each_alone(
        field,
        analyzed(lexicon(), index.stages, terms@),
        o,
        i,
    );
}

/// A match looks in the field of the column that it names or, where it names none, in the fields of
/// all text fields, in their order.
pub proof fn matches_look_in_the_fields_that_are_meant(
    index: IndexModel,
    column: Option<Seq<char>>,
    i: int,
)
    requires
        resolved_match_fields(index, column) is Ok,
    ensures
        ({
            let fields = resolved_match_fields(index, column)->Ok_0;
            match column {
                Some(c) if trimmed(c).len() > 0 => fields.len() == 1 && field_id(
                    index.fields,
                    trimmed(c),
                ) == Some(fields[0]),
                _ => {
                    &&& fields.len() == index.config.text_fields.len()
                    &&& 0 <= i < fields.len() ==> resolved_field(
                        index,
                        Some(index.config.text_fields[i]),
                    ) == Ok::<u32, ErrorView>(fields[i])
                },
            }
        }),
{
    column_means_its_field(index, column);
    if named_column(column) is None {
        texts_are_resolved(index, index.config.text_fields.len() as int);
        if 0 <= i < index.config.text_fields.len() {
            let name = index.config.text_fields[i];
            assert(resolved_field(index, Some(name)) is Ok);
        }
    }
}

/// What the query parser says against a phrase is passed on as it is.
pub proof fn parser_errors_are_passed_on(field: u32, query_text: Seq<char>, message: Seq<char>)
    ensures
        checked_phrase_plan(field, query_text, Some(message)) == Err::<PlanView, ErrorView>(
            ErrorView::InvalidQuery(message),
        ),
        checked_phrase_plan(field, query_text, None) == Ok::<PlanView, ErrorView>(
            PlanView::Phrase { field, query_text },
        ),
{
}

/// Where the analyzer of an index can be run on every text, every query can be planned.
pub proof fn queries_can_run_where_every_text_can(index: IndexModel, query: QuerySpec)
    requires
        forall|text: Seq<char>| #[trigger] text_can_run(index, text),
    ensures
        query_can_run(index, query),
    decreases query, 0int,
{
    match query {
        QuerySpec::Boolean { should, must, must_not, queries } => {
            children_run(index, should@, should@.len() as int);
            children_run(index, must@, must@.len() as int);
            children_run(index, must_not@, must_not@.len() as int);
            pairs_run(index, queries@, queries@.len() as int);
        },
        QuerySpec::Boost { positive, negative, negative_boost } => {
            queries_can_run_where_every_text_can(index, *positive);
            queries_can_run_where_every_text_can(index, *negative);
        },
        _ => {},
    }
}

proof fn children_run(index: IndexModel, queries: Seq<QuerySpec>, n: int)
    requires
        0 <= n <= queries.len(),
        forall|text: Seq<char>| #[trigger] text_can_run(index, text),
    ensures
        children_can_run(index, queries, n),
    decreases queries, n,
{
    if n > 0 {
        children_run(index, queries, n - 1);
        queries_can_run_where_every_text_can(index, queries[n - 1]);
    }
}

proof fn pairs_run(index: IndexModel, queries: Seq<(BooleanOccur, QuerySpec)>, n: int)
    requires
        0 <= n <= queries.len(),
        forall|text: Seq<char>| #[trigger] text_can_run(index, text),
    ensures
        pairs_can_run(index, queries, n),
    decreases queries, n,
{
    if n > 0 {
        pairs_run(index, queries, n - 1);
        queries_can_run_where_every_text_can(index, queries[n - 1].1);
    }
}

/// A column that means no field is refused by its name, and a missing one on an index with several
/// text fields for what is missing.
pub proof fn refused_columns_are_named(index: IndexModel, column: Option<Seq<char>>)
    ensures
        column matches Some(c) && trimmed(c).len() > 0 && !index.config.text_fields.contains(
            trimmed(c),
        ) ==> resolved_field(index, column) == Err::<u32, ErrorView>(
            ErrorView::InvalidQuery(
                "full-text query column '"@ + trimmed(column->Some_0)
                    + "' is not configured for this index"@,
            ),
        ),
        column is None && index.config.text_fields.len() != 1 ==> resolved_field(index, column)
            == Err::<u32, ErrorView>(
            ErrorView::InvalidQuery("full-text query column must be set for multi-field indexes"@),
        ),
{
}

/// A result that is what the model gives succeeds exactly where the model does, with a plan that
/// shows what the model has, or fails with its error.
pub proof fn results_agree_with_the_model(
    r: Result<QueryPlan, FtIndexError>,
    expected: Result<PlanView, ErrorView>,
)
    requires
        plan_result_is(r, expected),
    ensures
        r is Ok <==> expected is Ok,
        r matches Ok(plan) ==> plan@ == expected->Ok_0,
        r matches Err(e) ==> e@ == expected->Err_0,
{
}

} // verus!

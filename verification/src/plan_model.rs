//! The plan that each query is turned into, and the error that refuses it.
use crate::analyzer::{analyzed, analyzer_stages, can_run, lexicon, registered_name, Stage};
use crate::config::{FullTextIndexConfig, IndexConfigView};
use crate::error::{joined, ErrorView};
use crate::query::{BooleanOccur, MatchOperator, PlanView, QuerySpec};
use crate::schema::{field_id, schema_fields, FieldSpec};
use crate::score::{boost_problem, differs_from_one, negative_boost_problem, Score, ONE_BITS};
use crate::text::{decimal, replaced, text_views, trimmed};
use crate::writer::OpenIndex;
use tantivy::query::Occur;
use vstd::prelude::*;

verus! {

/// What decides how a query is planned: the configuration of the index, the fields of its schema
/// and the stages of its analyzer.
pub struct IndexModel {
    pub config: IndexConfigView,
    pub fields: Seq<FieldSpec>,
    pub stages: Seq<Stage>,
}

/// The model of an open index with its configuration.
pub open spec fn index_model(index: OpenIndex, config: FullTextIndexConfig) -> IndexModel {
    IndexModel {
        config: config@,
        fields: schema_fields(index.schema),
        stages: analyzer_stages(index.analyzer),
    }
}

/// How the tokens of a text are matched in a field.
#[derive(Clone, Copy)]
pub struct FieldMatchOptions {
    pub operator: MatchOperator,
    pub boost: Score,
    pub fuzziness: Option<u8>,
    pub max_expansions: usize,
    pub prefix_length: u32,
}

/// The characters of a text that may be missing.
pub open spec fn optional_text(text: Option<String>) -> Option<Seq<char>> {
    match text {
        Some(t) => Some(t@),
        None => None,
    }
}

/// The characters of a text that may be missing.
pub open spec fn optional_str(text: Option<&str>) -> Option<Seq<char>> {
    match text {
        Some(t) => Some(t@),
        None => None,
    }
}

/// The column that a query names, without space around it; an empty name counts as none.
pub open spec fn named_column(column: Option<Seq<char>>) -> Option<Seq<char>> {
    match column {
        Some(c) if trimmed(c).len() > 0 => Some(trimmed(c)),
        _ => None,
    }
}

/// What is wrong with the options of a match, if anything.
pub open spec fn match_options_problem(
    fuzziness: Option<u8>,
    max_expansions: usize,
) -> Option<ErrorView> {
    if fuzziness matches Some(f) && f > 2 {
        Some(
            ErrorView::InvalidQuery(
                "match query fuzziness must be auto/null or a value in [0, 2]"@,
            ),
        )
    } else if max_expansions == 0 {
        Some(ErrorView::InvalidQuery("match query max_expansions must be positive"@))
    } else {
        None
    }
}

/// What is wrong with the first `n` boosts, if anything: the first one that is refused.
pub open spec fn boosts_problem(boosts: Seq<Score>, n: int) -> Option<ErrorView>
    decreases n,
{
    if n <= 0 {
        None
    } else {
        match boosts_problem(boosts, n - 1) {
            Some(e) => Some(e),
            None => boost_problem(boosts[n - 1]),
        }
    }
}

/// What is wrong with the options of a match in several fields, if anything.
pub open spec fn multi_match_options_problem(
    columns: Seq<Seq<char>>,
    boosts: Seq<Score>,
    fuzziness: Option<u8>,
    max_expansions: usize,
) -> Option<ErrorView> {
    if columns.len() == 0 {
        Some(ErrorView::InvalidQuery("multi_match query must contain at least one column"@))
    } else if boosts.len() > 0 && boosts.len() != columns.len() {
        Some(
            ErrorView::InvalidQuery(
                joined(
                    "multi_match boosts length "@,
                    decimal(boosts.len()),
                    joined(" does not match columns length "@, decimal(columns.len()), ""@),
                ),
            ),
        )
    } else {
        match boosts_problem(boosts, boosts.len() as int) {
            Some(e) => Some(e),
            None => match_options_problem(fuzziness, max_expansions),
        }
    }
}

/// The field that a query's column means: the one that it names or, where it names none, the only
/// text field that there is.
pub open spec fn resolved_field(index: IndexModel, column: Option<Seq<char>>) -> Result<
    u32,
    ErrorView,
> {
    let texts = index.config.text_fields;
    match (named_column(column), texts.len() == 1) {
        (None, false) => Err(
            ErrorView::InvalidQuery("full-text query column must be set for multi-field indexes"@),
        ),
        (named, _) => {
            let name = match named {
                Some(name) => name,
                None => texts[0],
            };
            if !texts.contains(name) {
                Err(
                    ErrorView::InvalidQuery(
                        joined(
                            "full-text query column '"@,
                            name,
                            "' is not configured for this index"@,
                        ),
                    ),
                )
            } else {
                match field_id(index.fields, name) {
                    Some(id) => Ok(id),
                    None => Err(
                        ErrorView::InvalidQuery(joined("missing text field '"@, name, "'"@)),
                    ),
                }
            }
        },
    }
}

/// The fields of the first `n` text fields.
pub open spec fn resolved_texts(index: IndexModel, n: int) -> Result<Seq<u32>, ErrorView>
    decreases n,
{
    if n <= 0 {
        Ok(Seq::empty())
    } else {
        match resolved_texts(index, n - 1) {
            Err(e) => Err(e),
            Ok(before) => match resolved_field(index, Some(index.config.text_fields[n - 1])) {
                Err(e) => Err(e),
                Ok(id) => Ok(before.push(id)),
            },
        }
    }
}

/// The fields that a match looks at: the one that it names or, where it names none, all.
pub open spec fn resolved_match_fields(index: IndexModel, column: Option<Seq<char>>) -> Result<
    Seq<u32>,
    ErrorView,
> {
    if named_column(column) is Some {
        match resolved_field(index, column) {
            Ok(id) => Ok(seq![id]),
            Err(e) => Err(e),
        }
    } else {
        resolved_texts(index, index.config.text_fields.len() as int)
    }
}

/// The edit distance that is allowed for a token where a query does not say: none up to two
/// characters, one up to five, two for longer tokens.
pub open spec fn automatic_fuzziness(token: Seq<char>) -> u8 {
    if token.len() <= 2 {
        0
    } else if token.len() <= 5 {
        1
    } else {
        2
    }
}

/// The first `n` characters of a text, or all if it has fewer.
pub open spec fn first_chars(text: Seq<char>, n: int) -> Seq<char> {
    if n < text.len() {
        text.take(n)
    } else {
        text
    }
}

/// The plan for one token in one field.
pub open spec fn token_plan(field: u32, token: Seq<char>, o: FieldMatchOptions) -> Result<
    PlanView,
    ErrorView,
> {
    let distance = match o.fuzziness {
        Some(f) => f,
        None => automatic_fuzziness(token),
    };
    if distance == 0 {
        Ok(PlanView::Term { field, token })
    } else if distance > 2 {
        Err(
            ErrorView::InvalidQuery(
                "match query fuzziness must be auto/null or a value in [0, 2]"@,
            ),
        )
    } else {
        Ok(
            PlanView::Fuzzy {
                field,
                token,
                distance,
                prefix: first_chars(token, o.prefix_length as int),
                max_expansions: o.max_expansions,
            },
        )
    }
}

/// The way in which the tokens of a text are combined.
pub open spec fn token_occur(operator: MatchOperator) -> Occur {
    match operator {
        MatchOperator::Or => Occur::Should,
        MatchOperator::And => Occur::Must,
    }
}

/// The clauses for the first `n` tokens.
pub open spec fn token_clauses(
    field: u32,
    tokens: Seq<Seq<char>>,
    o: FieldMatchOptions,
    n: int,
) -> Result<Seq<(Occur, PlanView)>, ErrorView>
    decreases n,
{
    if n <= 0 {
        Ok(Seq::empty())
    } else {
        match token_clauses(field, tokens, o, n - 1) {
            Err(e) => Err(e),
            Ok(before) => match token_plan(field, tokens[n - 1], o) {
                Err(e) => Err(e),
                Ok(plan) => Ok(before.push((token_occur(o.operator), plan))),
            },
        }
    }
}

/// The plan for tokens in a field, before it is boosted: nothing, the one token, or all of them
/// together.
pub open spec fn tokens_plan(field: u32, tokens: Seq<Seq<char>>, o: FieldMatchOptions) -> Result<
    PlanView,
    ErrorView,
> {
    if tokens.len() == 0 {
        Ok(PlanView::Empty)
    } else if tokens.len() == 1 {
        token_plan(field, tokens[0], o)
    } else {
        match token_clauses(field, tokens, o, tokens.len() as int) {
            Ok(clauses) => Ok(PlanView::Boolean(clauses)),
            Err(e) => Err(e),
        }
    }
}

/// The plan for tokens in a field, boosted unless the boost is one.
pub open spec fn field_tokens_plan(
    field: u32,
    tokens: Seq<Seq<char>>,
    o: FieldMatchOptions,
) -> Result<PlanView, ErrorView> {
    match tokens_plan(field, tokens, o) {
        Err(e) => Err(e),
        Ok(plan) => if differs_from_one(o.boost) {
            Ok(PlanView::Boosted { query: Box::new(plan), boost: o.boost })
        } else {
            Ok(plan)
        },
    }
}

/// The plan for the tokens of a text in a field.
pub open spec fn field_match_plan(
    index: IndexModel,
    field: u32,
    terms: Seq<char>,
    o: FieldMatchOptions,
) -> Result<PlanView, ErrorView> {
    match boost_problem(o.boost) {
        Some(e) => Err(e),
        None => field_tokens_plan(field, analyzed(lexicon(), index.stages, terms), o),
    }
}

/// The clauses for the tokens of a text in the first `n` fields.
pub open spec fn field_clauses(
    index: IndexModel,
    fields: Seq<u32>,
    terms: Seq<char>,
    o: FieldMatchOptions,
    n: int,
) -> Result<Seq<(Occur, PlanView)>, ErrorView>
    decreases n,
{
    if n <= 0 {
        Ok(Seq::empty())
    } else {
        match field_clauses(index, fields, terms, o, n - 1) {
            Err(e) => Err(e),
            Ok(before) => match field_match_plan(index, fields[n - 1], terms, o) {
                Err(e) => Err(e),
                Ok(plan) => Ok(before.push((Occur::Should, plan))),
            },
        }
    }
}

/// The plan for a match: in one field, or in any of several.
pub open spec fn match_plan(
    index: IndexModel,
    column: Option<Seq<char>>,
    terms: Seq<char>,
    o: FieldMatchOptions,
) -> Result<PlanView, ErrorView> {
    match match_options_problem(o.fuzziness, o.max_expansions) {
        Some(e) => Err(e),
        None => match resolved_match_fields(index, column) {
            Err(e) => Err(e),
            Ok(fields) => match field_clauses(index, fields, terms, o, fields.len() as int) {
                Err(e) => Err(e),
                Ok(clauses) => if clauses.len() == 1 {
                    Ok(clauses[0].1)
                } else {
                    Ok(PlanView::Boolean(clauses))
                },
            },
        },
    }
}

/// The boost of one of the columns of a match in several fields: one where no boosts are given.
pub open spec fn column_boost(boosts: Seq<Score>, i: int) -> Score {
    if 0 <= i < boosts.len() {
        boosts[i]
    } else {
        Score { bits: ONE_BITS }
    }
}

/// The clauses for the first `n` columns of a match in several fields.
pub open spec fn column_clauses(
    index: IndexModel,
    columns: Seq<Seq<char>>,
    boosts: Seq<Score>,
    terms: Seq<char>,
    o: FieldMatchOptions,
    n: int,
) -> Result<Seq<(Occur, PlanView)>, ErrorView>
    decreases n,
{
    if n <= 0 {
        Ok(Seq::empty())
    } else {
        match column_clauses(index, columns, boosts, terms, o, n - 1) {
            Err(e) => Err(e),
            Ok(before) => match resolved_field(index, Some(columns[n - 1])) {
                Err(e) => Err(e),
                Ok(field) => match field_match_plan(
                    index,
                    field,
                    terms,
                    FieldMatchOptions { boost: column_boost(boosts, n - 1), ..o },
                ) {
                    Err(e) => Err(e),
                    Ok(plan) => Ok(before.push((Occur::Should, plan))),
                },
            },
        }
    }
}

/// The plan for a match in several fields.
pub open spec fn multi_match_plan(
    index: IndexModel,
    columns: Seq<Seq<char>>,
    boosts: Seq<Score>,
    terms: Seq<char>,
    o: FieldMatchOptions,
) -> Result<PlanView, ErrorView> {
    match multi_match_options_problem(columns, boosts, o.fuzziness, o.max_expansions) {
        Some(e) => Err(e),
        None => match column_clauses(index, columns, boosts, terms, o, columns.len() as int) {
            Err(e) => Err(e),
            Ok(clauses) => Ok(PlanView::Boolean(clauses)),
        },
    }
}

/// A text with a backslash before each backslash and each double quote.
pub open spec fn escaped(text: Seq<char>) -> Seq<char> {
    replaced(replaced(text, '\\', "\\\\"@), '"', "\\\""@)
}

/// A phrase as tantivy's query parser reads it: in double quotes and, if words may lie between its
/// tokens, with their number behind a tilde.
pub open spec fn phrase_text(terms: Seq<char>, slop: u32) -> Seq<char> {
    joined(
        "\""@,
        escaped(terms),
        if slop == 0 {
            "\""@
        } else {
            joined("\"~"@, decimal(slop as nat), ""@)
        },
    )
}

/// Why tantivy's query parser refuses a text, if it does: with these fields and the one given as the
/// default, and with an analyzer of these stages registered under this name beside tantivy's own.
pub uninterp spec fn parse_problem(
    fields: Seq<FieldSpec>,
    field: u32,
    tokenizer: Seq<char>,
    stages: Seq<Stage>,
    text: Seq<char>,
) -> Option<Seq<char>>;

/// The plan for a phrase, given why the query parser refuses it, if it does.
pub open spec fn checked_phrase_plan(
    field: u32,
    query_text: Seq<char>,
    problem: Option<Seq<char>>,
) -> Result<PlanView, ErrorView> {
    match problem {
        Some(message) => Err(ErrorView::InvalidQuery(message)),
        None => Ok(PlanView::Phrase { field, query_text }),
    }
}

/// The plan for a phrase.
pub open spec fn phrase_plan(
    index: IndexModel,
    column: Option<Seq<char>>,
    terms: Seq<char>,
    slop: u32,
) -> Result<PlanView, ErrorView> {
    if !index.config.tokenizer.with_position {
        Err(ErrorView::InvalidQuery("phrase query requires positions"@))
    } else {
        match resolved_field(index, column) {
            Err(e) => Err(e),
            Ok(field) => {
                let text = phrase_text(terms, slop);
                checked_phrase_plan(
                    field,
                    text,
                    parse_problem(
                        index.fields,
                        field,
                        registered_name(index.config.tokenizer.tokenizer),
                        index.stages,
                        text,
                    ),
                )
            },
        }
    }
}

/// Whether a clause with this occurrence looks for something.
pub open spec fn is_positive(occur: BooleanOccur) -> bool {
    occur == BooleanOccur::Should || occur == BooleanOccur::Must
}

/// tantivy's occurrence for a clause of a boolean query.
pub open spec fn clause_occur(occur: BooleanOccur) -> Occur {
    match occur {
        BooleanOccur::Should => Occur::Should,
        BooleanOccur::Must => Occur::Must,
        BooleanOccur::MustNot => Occur::MustNot,
    }
}

/// Whether one of the clauses looks for something.
pub open spec fn any_positive(queries: Seq<(BooleanOccur, QuerySpec)>) -> bool {
    exists|i: int| 0 <= i < queries.len() && is_positive((#[trigger] queries[i]).0)
}

/// What is wrong with the clauses of a boolean query, if anything: there must be one that looks for
/// something.
pub open spec fn boolean_problem(
    should: Seq<QuerySpec>,
    must: Seq<QuerySpec>,
    must_not: Seq<QuerySpec>,
    queries: Seq<(BooleanOccur, QuerySpec)>,
) -> Option<ErrorView> {
    if should.len() == 0 && must.len() == 0 && must_not.len() == 0 && queries.len() == 0 {
        Some(ErrorView::InvalidQuery("boolean query must contain at least one clause"@))
    } else if should.len() == 0 && must.len() == 0 && !any_positive(queries) {
        Some(
            ErrorView::InvalidQuery(
                "boolean query must contain at least one should or must clause"@,
            ),
        )
    } else {
        None
    }
}

/// The plan for a query, or the error that refuses it.
pub open spec fn plan(index: IndexModel, query: QuerySpec) -> Result<PlanView, ErrorView>
    decreases query, 0int,
{
    match query {
        QuerySpec::Match {
            column,
            terms,
            operator,
            boost,
            fuzziness,
            max_expansions,
            prefix_length,
        } => match_plan(
            index,
            optional_text(column),
            terms@,
            FieldMatchOptions { operator, boost, fuzziness, max_expansions, prefix_length },
        ),
        QuerySpec::MultiMatch {
            terms,
            columns,
            boosts,
            operator,
            fuzziness,
            max_expansions,
            prefix_length,
        } => multi_match_plan(
            index,
            text_views(columns@),
            boosts@,
            terms@,
            FieldMatchOptions {
                operator,
                boost: Score { bits: ONE_BITS },
                fuzziness,
                max_expansions,
                prefix_length,
            },
        ),
        QuerySpec::MatchPhrase { column, terms, slop } => phrase_plan(
            index,
            optional_text(column),
            terms@,
            slop,
        ),
        QuerySpec::Boolean { should, must, must_not, queries } => match boolean_problem(
            should@,
            must@,
            must_not@,
            queries@,
        ) {
            Some(e) => Err(e),
            None => {
                let first = child_clauses(index, Occur::Should, should@, should@.len() as int);
                let second = child_clauses(index, Occur::Must, must@, must@.len() as int);
                let third = child_clauses(
                    index,
                    Occur::MustNot,
                    must_not@,
                    must_not@.len() as int,
                );
                let fourth = pair_clauses(index, queries@, queries@.len() as int);
                match (first, second, third, fourth) {
                    (Ok(a), Ok(b), Ok(c), Ok(d)) => Ok(PlanView::Boolean(a + b + c + d)),
                    (Err(e), _, _, _) => Err(e),
                    (_, Err(e), _, _) => Err(e),
                    (_, _, Err(e), _) => Err(e),
                    (_, _, _, Err(e)) => Err(e),
                }
            },
        },
        QuerySpec::Boost { positive, negative, negative_boost } => match negative_boost_problem(
            negative_boost,
        ) {
            Some(e) => Err(e),
            None => match (plan(index, *positive), plan(index, *negative)) {
                (Ok(p), Ok(n)) => Ok(
                    PlanView::Demote {
                        positive: Box::new(p),
                        negative: Box::new(n),
                        negative_boost,
                    },
                ),
                (Err(e), _) => Err(e),
                (_, Err(e)) => Err(e),
            },
        },
    }
}

/// The clauses for the first `n` queries of a list, all with the same occurrence.
pub open spec fn child_clauses(
    index: IndexModel,
    occur: Occur,
    queries: Seq<QuerySpec>,
    n: int,
) -> Result<Seq<(Occur, PlanView)>, ErrorView>
    decreases queries, n,
{
    if n <= 0 || n > queries.len() {
        Ok(Seq::empty())
    } else {
        match child_clauses(index, occur, queries, n - 1) {
            Err(e) => Err(e),
            Ok(before) => match plan(index, queries[n - 1]) {
                Err(e) => Err(e),
                Ok(p) => Ok(before.push((occur, p))),
            },
        }
    }
}

/// The clauses for the first `n` queries of a list, each with its own occurrence.
pub open spec fn pair_clauses(
    index: IndexModel,
    queries: Seq<(BooleanOccur, QuerySpec)>,
    n: int,
) -> Result<Seq<(Occur, PlanView)>, ErrorView>
    decreases queries, n,
{
    if n <= 0 || n > queries.len() {
        Ok(Seq::empty())
    } else {
        match pair_clauses(index, queries, n - 1) {
            Err(e) => Err(e),
            Ok(before) => match plan(index, queries[n - 1].1) {
                Err(e) => Err(e),
                Ok(p) => Ok(before.push((clause_occur(queries[n - 1].0), p))),
            },
        }
    }
}

/// Whether the analyzer of the index can be run on the text.
pub open spec fn text_can_run(index: IndexModel, text: Seq<char>) -> bool {
    can_run(lexicon(), index.stages, text)
}

/// Whether the tokens of a text in a field can be planned: the text is cut into tokens unless the
/// boost is refused.
pub open spec fn field_match_can_run(index: IndexModel, terms: Seq<char>, boost: Score) -> bool {
    boost_problem(boost) is None ==> text_can_run(index, terms)
}

/// Whether a match can be planned: its text is cut into tokens unless its options are refused or it
/// has no field.
pub open spec fn match_can_run(
    index: IndexModel,
    column: Option<Seq<char>>,
    terms: Seq<char>,
    o: FieldMatchOptions,
) -> bool {
    match_options_problem(o.fuzziness, o.max_expansions) is None && (resolved_match_fields(
        index,
        column,
    ) matches Ok(fields) && fields.len() > 0) ==> field_match_can_run(index, terms, o.boost)
}

/// Whether a match in several fields can be planned: its text is cut into tokens unless its options
/// or its first column are refused.
pub open spec fn multi_match_can_run(
    index: IndexModel,
    columns: Seq<Seq<char>>,
    boosts: Seq<Score>,
    terms: Seq<char>,
    o: FieldMatchOptions,
) -> bool {
    multi_match_options_problem(columns, boosts, o.fuzziness, o.max_expansions) is None
        && resolved_field(index, Some(columns[0])) is Ok ==> text_can_run(index, terms)
}

/// Whether a phrase can be planned: it is cut into tokens unless there are no positions or no field.
pub open spec fn phrase_can_run(
    index: IndexModel,
    column: Option<Seq<char>>,
    terms: Seq<char>,
) -> bool {
    index.config.tokenizer.with_position && resolved_field(index, column) is Ok ==> text_can_run(
        index,
        terms,
    )
}

/// Whether a query can be planned: the analyzer of the index can be run on each text that is cut
/// into tokens before an error refuses the query.
pub open spec fn query_can_run(index: IndexModel, query: QuerySpec) -> bool
    decreases query, 0int,
{
    match query {
        QuerySpec::Match {
            column,
            terms,
            operator,
            boost,
            fuzziness,
            max_expansions,
            prefix_length,
        } => match_can_run(
            index,
            optional_text(column),
            terms@,
            FieldMatchOptions { operator, boost, fuzziness, max_expansions, prefix_length },
        ),
        QuerySpec::MultiMatch {
            terms,
            columns,
            boosts,
            operator,
            fuzziness,
            max_expansions,
            prefix_length,
        } => multi_match_can_run(
            index,
            text_views(columns@),
            boosts@,
            terms@,
            FieldMatchOptions {
                operator,
                boost: Score { bits: ONE_BITS },
                fuzziness,
                max_expansions,
                prefix_length,
            },
        ),
        QuerySpec::MatchPhrase { column, terms, slop } => phrase_can_run(
            index,
            optional_text(column),
            terms@,
        ),
        QuerySpec::Boolean { should, must, must_not, queries } => boolean_problem(
            should@,
            must@,
            must_not@,
            queries@,
        ) is None ==> {
            let first = child_clauses(index, Occur::Should, should@, should@.len() as int);
            let second = child_clauses(index, Occur::Must, must@, must@.len() as int);
            let third = child_clauses(index, Occur::MustNot, must_not@, must_not@.len() as int);
            &&& children_can_run(index, should@, should@.len() as int)
            &&& first is Ok ==> children_can_run(index, must@, must@.len() as int)
            &&& first is Ok && second is Ok ==> children_can_run(
                index,
                must_not@,
                must_not@.len() as int,
            )
            &&& first is Ok && second is Ok && third is Ok ==> pairs_can_run(
                index,
                queries@,
                queries@.len() as int,
            )
        },
        QuerySpec::Boost { positive, negative, negative_boost } => negative_boost_problem(
            negative_boost,
        ) is None ==> {
            &&& query_can_run(index, *positive)
            &&& plan(index, *positive) is Ok ==> query_can_run(index, *negative)
        },
    }
}

/// Whether the first `n` queries of a list can be planned, up to the first that is refused.
pub open spec fn children_can_run(index: IndexModel, queries: Seq<QuerySpec>, n: int) -> bool
    decreases queries, n,
{
    if n <= 0 || n > queries.len() {
        true
    } else {
        &&& children_can_run(index, queries, n - 1)
        &&& (forall|k: int| 0 <= k < n - 1 ==> plan(index, #[trigger] queries[k]) is Ok)
            ==> query_can_run(index, queries[n - 1])
    }
}

/// Whether the first `n` queries of a list can be planned, up to the first that is refused.
pub open spec fn pairs_can_run(
    index: IndexModel,
    queries: Seq<(BooleanOccur, QuerySpec)>,
    n: int,
) -> bool
    decreases queries, n,
{
    if n <= 0 || n > queries.len() {
        true
    } else {
        &&& pairs_can_run(index, queries, n - 1)
        &&& (forall|k: int| 0 <= k < n - 1 ==> plan(index, (#[trigger] queries[k]).1) is Ok)
            ==> query_can_run(index, queries[n - 1].1)
    }
}

/// What decides how a query is planned is the configuration that is given, and the fields and the
/// stages of the index that is given.
pub proof fn model_is_of_the_index(index: OpenIndex, config: FullTextIndexConfig)
    ensures
        index_model(index, config).config == config@,
        index_model(index, config).fields == schema_fields(index.schema),
        index_model(index, config).stages == analyzer_stages(index.analyzer),
{
}

} // verus!

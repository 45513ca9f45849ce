//! Turning a query into a plan.
use crate::analyzer::{
    analyze_terms, analyzer_stages, can_analyze, can_run, lexicon, planned_stages, tokenizer_name,
    Stage,
};
use crate::config::FullTextIndexConfig;
use crate::error::{invalid_query, join, unit_result_is, ErrorView, FtIndexError};
use crate::plan_model::{
    any_positive, automatic_fuzziness, boolean_problem, boosts_problem, checked_phrase_plan,
    child_clauses, children_can_run, column_boost, column_clauses, field_clauses,
    field_match_can_run, field_match_plan, field_tokens_plan, first_chars, index_model,
    is_positive, match_can_run, match_options_problem, match_plan, multi_match_can_run,
    multi_match_options_problem, multi_match_plan, named_column, optional_str, optional_text,
    pair_clauses, pairs_can_run, parse_problem, phrase_can_run, phrase_plan, phrase_text, plan,
    query_can_run, resolved_field, resolved_match_fields, resolved_texts, text_can_run,
    token_clauses, token_occur, token_plan, tokens_plan, FieldMatchOptions, IndexModel,
};
use crate::query::{
    boolean_view, clause_views, BooleanOccur, MatchOperator, PlanView, QueryPlan, QuerySpec,
};
use crate::schema::{find_field, schema_fields};
use crate::score::{
    boost_problem, is_effective, validate_boost, validate_negative_boost, Score, ONE_BITS,
};
use crate::text::{contains_text, decimal_text, replace_char, text_views};
use crate::writer::OpenIndex;
use tantivy::query::{Occur, QueryParser};
use tantivy::schema::{Field, Schema};
use tantivy::tokenizer::{TextAnalyzer, TokenizerManager};
use vstd::prelude::*;

verus! {

/// `QueryParser::parse_query` on a text, with one default field and one analyzer registered beside
/// tantivy's own. What it makes of the text depends on the schema, the field, the analyzer and the
/// text alone; here only its error is kept, as it is displayed. It panics on a field that the schema
/// lacks, and its descent into a text of nested parentheses has no bound: it is handed a quoted phrase
/// and nothing else. It hands the phrase to the analyzer, which must be able to run on it.
#[verifier::external_body]
fn parse_error(
    schema: &Schema,
    field: u32,
    tokenizer: &str,
    analyzer: &TextAnalyzer,
    text: &str,
) -> (r: Option<String>)
    requires
        field < schema_fields(*schema).len(),
        exists|terms: Seq<char>, slop: u32|
            text@ == #[trigger] phrase_text(terms, slop) && can_run(
                lexicon(),
                analyzer_stages(*analyzer),
                terms,
            ),
    ensures
        optional_text(r) == parse_problem(
            schema_fields(*schema),
            field,
            tokenizer@,
            analyzer_stages(*analyzer),
            text@,
        ),
{
    let tokenizers = TokenizerManager::default();
    tokenizers.register(tokenizer, analyzer.clone());
    let field = Field::from_field_id(field);
    let parser = QueryParser::new(schema.clone(), vec![field], tokenizers);
    parser.parse_query(text).err().map(|e| e.to_string())
}

/// Whether a result is the plan or the error that the model gives.
pub open spec fn plan_result_is(
    r: Result<QueryPlan, FtIndexError>,
    expected: Result<PlanView, ErrorView>,
) -> bool {
    match (r, expected) {
        (Ok(plan), Ok(p)) => plan@ == p,
        (Err(e), Err(p)) => e@ == p,
        _ => false,
    }
}

/// Refuses a fuzziness above two and a limit of no expansions.
pub fn validate_match_options(
    fuzziness: Option<u8>,
    max_expansions: usize,
    prefix_length: u32,
) -> (r: Result<(), FtIndexError>)
    ensures
        unit_result_is(r, match_options_problem(fuzziness, max_expansions)),
{
    let fuzziness: u8 = match fuzziness {
        Some(f) => f,
        None => 0,
    };
    if fuzziness > 2 {
        return Err(
            invalid_query("match query fuzziness must be auto/null or a value in [0, 2]"),
        );
    }
    if max_expansions == 0 {
        return Err(invalid_query("match query max_expansions must be positive"));
    }
    Ok(())
}

proof fn boosts_problem_stays(boosts: Seq<Score>, n: int, m: int)
    requires
        n <= m,
        boosts_problem(boosts, n) is Some,
    ensures
        boosts_problem(boosts, m) == boosts_problem(boosts, n),
    decreases m - n,
{
    if n < m {
        boosts_problem_stays(boosts, n, m - 1);
    }
}

/// Refuses a match in no field, boosts that do not go with the fields, and options that
/// `validate_match_options` refuses.
pub fn validate_multi_match_options(
    columns: &Vec<String>,
    boosts: &Vec<Score>,
    fuzziness: Option<u8>,
    max_expansions: usize,
    prefix_length: u32,
) -> (r: Result<(), FtIndexError>)
    ensures
        unit_result_is(
            r,
            multi_match_options_problem(
                text_views(columns@),
                boosts@,
                fuzziness,
                max_expansions,
            ),
        ),
{
    if columns.is_empty() {
        return Err(invalid_query("multi_match query must contain at least one column"));
    }
    if !boosts.is_empty() && boosts.len() != columns.len() {
        let tail = join(
            " does not match columns length ",
            decimal_text(columns.len() as u64).as_str(),
            "",
        );
        let message = join(
            "multi_match boosts length ",
            decimal_text(boosts.len() as u64).as_str(),
            tail.as_str(),
        );
        return Err(FtIndexError::InvalidQuery(message));
    }
    let mut i: usize = 0;
    while i < boosts.len()
        invariant
            i <= boosts.len(),
            boosts_problem(boosts@, i as int) is None,
            columns@.len() > 0,
            boosts@.len() > 0 ==> boosts@.len() == columns@.len(),
        decreases boosts.len() - i,
    {
        match validate_boost(boosts[i]) {
            Ok(_) => {},
            Err(e) => {
                proof {
                    assert(boosts_problem(boosts@, i + 1) == Some(e@));
                    boosts_problem_stays(boosts@, i + 1, boosts@.len() as int);
                }
                return Err(e);
            },
        }
        assert(boosts_problem(boosts@, i + 1) is None);
        i = i + 1;
    }
    validate_match_options(fuzziness, max_expansions, prefix_length)
}

/// The column that a query names, without space around it.
fn column_name<'a>(column: Option<&'a str>) -> (r: Option<&'a str>)
    ensures
        optional_str(r) == named_column(optional_str(column)),
{
    match column {
        Some(text) => {
            let name = text.trim();
            if name.is_empty() {
                None
            } else {
                Some(name)
            }
        },
        None => None,
    }
}

/// The field that a query's column means.
pub fn resolve_text_field(
    index: &OpenIndex,
    config: &FullTextIndexConfig,
    column: Option<&str>,
) -> (r: Result<u32, FtIndexError>)
    ensures
        match (r, resolved_field(index_model(*index, *config), optional_str(column))) {
            (Ok(id), Ok(f)) => id == f && id < schema_fields(index.schema).len(),
            (Err(e), Err(p)) => e@ == p,
            _ => false,
        },
{
    let fields = config.indexed_text_fields();
    assert(text_views(fields@).len() == fields@.len());
    let column = match column_name(column) {
        Some(name) => name,
        None => {
            if fields.len() == 1 {
                assert(text_views(fields@)[0] == fields@[0]@);
                fields[0].as_str()
            } else {
                return Err(
                    invalid_query("full-text query column must be set for multi-field indexes"),
                );
            }
        },
    };
    if !contains_text(fields, column) {
        let message = join(
            "full-text query column '",
            column,
            "' is not configured for this index",
        );
        return Err(FtIndexError::InvalidQuery(message));
    }
    match find_field(&index.schema, column) {
        Some(id) => Ok(id),
        None => Err(FtIndexError::InvalidQuery(join("missing text field '", column, "'"))),
    }
}

proof fn resolved_texts_fail(index: IndexModel, n: int, m: int)
    requires
        n <= m,
        resolved_texts(index, n) is Err,
    ensures
        resolved_texts(index, m) == resolved_texts(index, n),
    decreases m - n,
{
    if n < m {
        resolved_texts_fail(index, n, m - 1);
    }
}

/// The fields that a match looks at.
pub fn resolve_match_fields(
    index: &OpenIndex,
    config: &FullTextIndexConfig,
    column: Option<&str>,
) -> (r: Result<Vec<u32>, FtIndexError>)
    ensures
        match (r, resolved_match_fields(index_model(*index, *config), optional_str(column))) {
            (Ok(ids), Ok(f)) => ids@ == f,
            (Err(e), Err(p)) => e@ == p,
            _ => false,
        },
{
    let ghost model = index_model(*index, *config);
    if column_name(column).is_some() {
        return match resolve_text_field(index, config, column) {
            Ok(id) => {
                let ids = vec![id];
                assert(ids@ =~= seq![id]);
                Ok(ids)
            },
            Err(e) => Err(e),
        };
    }
    let names = config.indexed_text_fields();
    let mut ids: Vec<u32> = Vec::new();
    let mut i: usize = 0;
    assert(ids@ =~= Seq::<u32>::empty());
    while i < names.len()
        invariant
            i <= names.len(),
            model == index_model(*index, *config),
            text_views(names@) == config@.text_fields,
            named_column(optional_str(column)) is None,
            resolved_texts(model, i as int) == Ok::<Seq<u32>, ErrorView>(ids@),
        decreases names.len() - i,
    {
        assert(config@.text_fields[i as int] == names@[i as int]@);
        match resolve_text_field(index, config, Some(names[i].as_str())) {
            Ok(id) => {
                ids.push(id);
            },
            Err(e) => {
                proof {
                    assert(resolved_texts(model, i + 1) == Err::<Seq<u32>, ErrorView>(e@));
                    resolved_texts_fail(model, i + 1, names@.len() as int);
                }
                return Err(e);
            },
        }
        i = i + 1;
    }
    Ok(ids)
}

/// The edit distance that is allowed for a token where a query does not say.
pub fn auto_fuzziness(token: &str) -> (r: u8)
    ensures
        r == automatic_fuzziness(token@),
{
    let length: usize = token.unicode_len();
    if length <= 2 {
        0
    } else if length <= 5 {
        1
    } else {
        2
    }
}

/// The plan for one token in one field.
pub fn build_token_query(field: u32, token: &str, options: FieldMatchOptions) -> (r: Result<
    QueryPlan,
    FtIndexError,
>)
    ensures
        plan_result_is(r, token_plan(field, token@, options)),
{
    let distance: u8 = match options.fuzziness {
        Some(f) => f,
        None => auto_fuzziness(token),
    };
    if distance == 0 {
        return Ok(QueryPlan::Term { field, token: token.to_owned() });
    }
    if distance > 2 {
        return Err(
            invalid_query("match query fuzziness must be auto/null or a value in [0, 2]"),
        );
    }
    let length: usize = token.unicode_len();
    let prefix = if (options.prefix_length as u64) < length as u64 {
        let prefix = token.substring_char(0, options.prefix_length as usize);
        assert(prefix@ =~= first_chars(token@, options.prefix_length as int));
        prefix
    } else {
        token
    };
    Ok(
        QueryPlan::Fuzzy {
            field,
            token: token.to_owned(),
            distance,
            prefix: prefix.to_owned(),
            max_expansions: options.max_expansions,
        },
    )
}

proof fn token_clauses_fail(
    field: u32,
    tokens: Seq<Seq<char>>,
    o: FieldMatchOptions,
    n: int,
    m: int,
)
    requires
        n <= m,
        token_clauses(field, tokens, o, n) is Err,
    ensures
        token_clauses(field, tokens, o, m) == token_clauses(field, tokens, o, n),
    decreases m - n,
{
    if n < m {
        token_clauses_fail(field, tokens, o, n, m - 1);
    }
}

/// Adds a clause to a list of clauses.
fn push_clause(clauses: &mut Vec<(Occur, QueryPlan)>, occur: Occur, plan: QueryPlan)
    ensures
        clause_views(final(clauses)@) == clause_views(old(clauses)@).push((occur, plan@)),
{
    clauses.push((occur, plan));
    assert(clause_views(clauses@) =~= clause_views(old(clauses)@).push((occur, plan@)));
}

/// The plan for tokens in a field, boosted unless the boost is one.
pub fn build_tokens_query(field: u32, tokens: &Vec<String>, options: FieldMatchOptions) -> (r:
    Result<QueryPlan, FtIndexError>)
    requires
        boost_problem(options.boost) is None,
    ensures
        plan_result_is(r, field_tokens_plan(field, text_views(tokens@), options)),
{
    let ghost views = text_views(tokens@);
    let query = if tokens.is_empty() {
        QueryPlan::Empty
    } else if tokens.len() == 1 {
        assert(views[0] == tokens@[0]@);
        match build_token_query(field, tokens[0].as_str(), options) {
            Ok(plan) => plan,
            Err(e) => {
                return Err(e);
            },
        }
    } else {
        let occur = match options.operator {
            MatchOperator::Or => Occur::Should,
            MatchOperator::And => Occur::Must,
        };
        let mut clauses: Vec<(Occur, QueryPlan)> = Vec::new();
        let mut i: usize = 0;
        assert(clause_views(clauses@) =~= Seq::<(Occur, PlanView)>::empty());
        while i < tokens.len()
            invariant
                i <= tokens.len(),
                tokens@.len() > 1,
                views == text_views(tokens@),
                occur == token_occur(options.operator),
                token_clauses(field, views, options, i as int) == Ok::<
                    Seq<(Occur, PlanView)>,
                    ErrorView,
                >(clause_views(clauses@)),
            decreases tokens.len() - i,
        {
            assert(views[i as int] == tokens@[i as int]@);
            match build_token_query(field, tokens[i].as_str(), options) {
                Ok(plan) => {
                    push_clause(&mut clauses, occur, plan);
                },
                Err(e) => {
                    proof {
                        assert(token_clauses(field, views, options, i + 1) == Err::<
                            Seq<(Occur, PlanView)>,
                            ErrorView,
                        >(e@));
                        token_clauses_fail(field, views, options, i + 1, views.len() as int);
                    }
                    return Err(e);
                },
            }
            i = i + 1;
        }
        proof {
            boolean_view(clauses);
        }
        QueryPlan::Boolean(clauses)
    };
    assert(tokens_plan(field, views, options) == Ok::<PlanView, ErrorView>(query@));
    if is_effective(options.boost) {
        return Ok(QueryPlan::Boosted { query: Box::new(query), boost: options.boost });
    }
    Ok(query)
}

/// The plan for the tokens of a text in a field.
pub fn build_field_match_query(
    index: &OpenIndex,
    config: &FullTextIndexConfig,
    field: u32,
    terms: &str,
    options: FieldMatchOptions,
) -> (r: Result<QueryPlan, FtIndexError>)
    requires
        field_match_can_run(index_model(*index, *config), terms@, options.boost),
    ensures
        plan_result_is(r, field_match_plan(index_model(*index, *config), field, terms@, options)),
{
    match validate_boost(options.boost) {
        Ok(_) => {},
        Err(e) => {
            return Err(e);
        },
    }
    let tokens = analyze_terms(&index.analyzer, terms);
    build_tokens_query(field, &tokens, options)
}

proof fn field_clauses_fail(
    index: IndexModel,
    fields: Seq<u32>,
    terms: Seq<char>,
    o: FieldMatchOptions,
    n: int,
    m: int,
)
    requires
        n <= m,
        field_clauses(index, fields, terms, o, n) is Err,
    ensures
        field_clauses(index, fields, terms, o, m) == field_clauses(index, fields, terms, o, n),
    decreases m - n,
{
    if n < m {
        field_clauses_fail(index, fields, terms, o, n, m - 1);
    }
}

/// The plan for a match.
fn build_match_query(
    index: &OpenIndex,
    config: &FullTextIndexConfig,
    column: Option<&str>,
    terms: &str,
    options: FieldMatchOptions,
) -> (r: Result<QueryPlan, FtIndexError>)
    requires
        match_can_run(index_model(*index, *config), optional_str(column), terms@, options),
    ensures
        plan_result_is(
            r,
            match_plan(index_model(*index, *config), optional_str(column), terms@, options),
        ),
{
    let ghost model = index_model(*index, *config);
    match validate_match_options(options.fuzziness, options.max_expansions, options.prefix_length) {
        Ok(_) => {},
        Err(e) => {
            return Err(e);
        },
    }
    let fields = match resolve_match_fields(index, config, column) {
        Ok(fields) => fields,
        Err(e) => {
            return Err(e);
        },
    };
    let mut clauses: Vec<(Occur, QueryPlan)> = Vec::new();
    let mut i: usize = 0;
    assert(clause_views(clauses@) =~= Seq::<(Occur, PlanView)>::empty());
    while i < fields.len()
        invariant
            i <= fields.len(),
            match_can_run(model, optional_str(column), terms@, options),
            model == index_model(*index, *config),
            match_options_problem(options.fuzziness, options.max_expansions) is None,
            resolved_match_fields(model, optional_str(column)) == Ok::<Seq<u32>, ErrorView>(
                fields@,
            ),
            field_clauses(model, fields@, terms@, options, i as int) == Ok::<
                Seq<(Occur, PlanView)>,
                ErrorView,
            >(clause_views(clauses@)),
        decreases fields.len() - i,
    {
        match build_field_match_query(index, config, fields[i], terms, options) {
            Ok(plan) => {
                push_clause(&mut clauses, Occur::Should, plan);
            },
            Err(e) => {
                proof {
                    assert(field_clauses(model, fields@, terms@, options, i + 1) == Err::<
                        Seq<(Occur, PlanView)>,
                        ErrorView,
                    >(e@));
                    field_clauses_fail(
                        model,
                        fields@,
                        terms@,
                        options,
                        i + 1,
                        fields@.len() as int,
                    );
                }
                return Err(e);
            },
        }
        i = i + 1;
    }
    assert(clause_views(clauses@).len() == clauses@.len());
    if clauses.len() == 1 {
        assert(clause_views(clauses@)[0] == (clauses@[0].0, clauses@[0].1@));
        let (_, only) = clauses.remove(0);
        Ok(only)
    } else {
        proof {
            boolean_view(clauses);
        }
        Ok(QueryPlan::Boolean(clauses))
    }
}

proof fn column_clauses_fail(
    index: IndexModel,
    columns: Seq<Seq<char>>,
    boosts: Seq<Score>,
    terms: Seq<char>,
    o: FieldMatchOptions,
    n: int,
    m: int,
)
    requires
        n <= m,
        column_clauses(index, columns, boosts, terms, o, n) is Err,
    ensures
        column_clauses(index, columns, boosts, terms, o, m) == column_clauses(
            index,
            columns,
            boosts,
            terms,
            o,
            n,
        ),
    decreases m - n,
{
    if n < m {
        column_clauses_fail(index, columns, boosts, terms, o, n, m - 1);
    }
}

/// The plan for a match in several fields. The boost in `options` is not looked at.
fn build_multi_match_query(
    index: &OpenIndex,
    config: &FullTextIndexConfig,
    columns: &Vec<String>,
    boosts: &Vec<Score>,
    terms: &str,
    options: FieldMatchOptions,
) -> (r: Result<QueryPlan, FtIndexError>)
    requires
        multi_match_can_run(
            index_model(*index, *config),
            text_views(columns@),
            boosts@,
            terms@,
            options,
        ),
    ensures
        plan_result_is(
            r,
            multi_match_plan(
                index_model(*index, *config),
                text_views(columns@),
                boosts@,
                terms@,
                options,
            ),
        ),
{
    let ghost model = index_model(*index, *config);
    let ghost names = text_views(columns@);
    match validate_multi_match_options(
        columns,
        boosts,
        options.fuzziness,
        options.max_expansions,
        options.prefix_length,
    ) {
        Ok(_) => {},
        Err(e) => {
            return Err(e);
        },
    }
    let mut clauses: Vec<(Occur, QueryPlan)> = Vec::new();
    let mut i: usize = 0;
    assert(clause_views(clauses@) =~= Seq::<(Occur, PlanView)>::empty());
    while i < columns.len()
        invariant
            i <= columns.len(),
            multi_match_can_run(model, names, boosts@, terms@, options),
            i > 0 ==> text_can_run(model, terms@),
            model == index_model(*index, *config),
            names == text_views(columns@),
            multi_match_options_problem(
                names,
                boosts@,
                options.fuzziness,
                options.max_expansions,
            ) is None,
            column_clauses(model, names, boosts@, terms@, options, i as int) == Ok::<
                Seq<(Occur, PlanView)>,
                ErrorView,
            >(clause_views(clauses@)),
        decreases columns.len() - i,
    {
        let boost = if i < boosts.len() {
            boosts[i]
        } else {
            Score { bits: ONE_BITS }
        };
        assert(boost == column_boost(boosts@, i as int));
        assert(names[i as int] == columns@[i as int]@);
        let outcome = match resolve_text_field(index, config, Some(columns[i].as_str())) {
            Ok(field) => {
                let options = FieldMatchOptions {
                    operator: options.operator,
                    boost,
                    fuzziness: options.fuzziness,
                    max_expansions: options.max_expansions,
                    prefix_length: options.prefix_length,
                };
                build_field_match_query(index, config, field, terms, options)
            },
            Err(e) => Err(e),
        };
        match outcome {
            Ok(plan) => {
                push_clause(&mut clauses, Occur::Should, plan);
            },
            Err(e) => {
                proof {
                    assert(column_clauses(model, names, boosts@, terms@, options, i + 1) == Err::<
                        Seq<(Occur, PlanView)>,
                        ErrorView,
                    >(e@));
                    column_clauses_fail(
                        model,
                        names,
                        boosts@,
                        terms@,
                        options,
                        i + 1,
                        names.len() as int,
                    );
                }
                return Err(e);
            },
        }
        i = i + 1;
    }
    proof {
        boolean_view(clauses);
    }
    Ok(QueryPlan::Boolean(clauses))
}

/// A phrase as tantivy's query parser reads it.
pub fn phrase_query_text(terms: &str, slop: u32) -> (r: String)
    ensures
        r@ == phrase_text(terms@, slop),
{
    let backslashes = replace_char(terms, '\\', "\\\\");
    let escaped = replace_char(backslashes.as_str(), '"', "\\\"");
    let tail = if slop == 0 {
        "\"".to_owned()
    } else {
        join("\"~", decimal_text(slop as u64).as_str(), "")
    };
    join("\"", escaped.as_str(), tail.as_str())
}

/// The plan for a phrase, given why the query parser refuses it, if it does.
pub fn checked_phrase(field: u32, query_text: String, problem: Option<String>) -> (r: Result<
    QueryPlan,
    FtIndexError,
>)
    ensures
        plan_result_is(r, checked_phrase_plan(field, query_text@, optional_text(problem))),
{
    match problem {
        Some(message) => Err(FtIndexError::InvalidQuery(message)),
        None => Ok(QueryPlan::Phrase { field, query_text }),
    }
}

/// The plan for a phrase.
fn build_phrase_query(
    index: &OpenIndex,
    config: &FullTextIndexConfig,
    column: Option<&str>,
    terms: &str,
    slop: u32,
) -> (r: Result<QueryPlan, FtIndexError>)
    requires
        phrase_can_run(index_model(*index, *config), optional_str(column), terms@),
    ensures
        plan_result_is(
            r,
            phrase_plan(index_model(*index, *config), optional_str(column), terms@, slop),
        ),
{
    if !config.tokenizer.with_position {
        return Err(invalid_query("phrase query requires positions"));
    }
    let field = match resolve_text_field(index, config, column) {
        Ok(field) => field,
        Err(e) => {
            return Err(e);
        },
    };
    let query_text = phrase_query_text(terms, slop);
    let problem = parse_error(
        &index.schema,
        field,
        tokenizer_name(&config.tokenizer),
        &index.analyzer,
        query_text.as_str(),
    );
    checked_phrase(field, query_text, problem)
}

fn has_positive(queries: &Vec<(BooleanOccur, QuerySpec)>) -> (r: bool)
    ensures
        r == any_positive(queries@),
{
    let mut i: usize = 0;
    while i < queries.len()
        invariant
            i <= queries.len(),
            forall|k: int| 0 <= k < i ==> !is_positive((#[trigger] queries@[k]).0),
        decreases queries.len() - i,
    {
        match queries[i].0 {
            BooleanOccur::Should | BooleanOccur::Must => {
                assert(is_positive(queries@[i as int].0));
                return true;
            },
            BooleanOccur::MustNot => {},
        }
        i = i + 1;
    }
    false
}

/// Refuses a boolean query without a clause that looks for something.
fn validate_clauses(
    should: &Vec<QuerySpec>,
    must: &Vec<QuerySpec>,
    must_not: &Vec<QuerySpec>,
    queries: &Vec<(BooleanOccur, QuerySpec)>,
) -> (r: Result<(), FtIndexError>)
    ensures
        unit_result_is(r, boolean_problem(should@, must@, must_not@, queries@)),
{
    if should.is_empty() && must.is_empty() && must_not.is_empty() && queries.is_empty() {
        return Err(invalid_query("boolean query must contain at least one clause"));
    }
    if should.is_empty() && must.is_empty() && !has_positive(queries) {
        return Err(
            invalid_query("boolean query must contain at least one should or must clause"),
        );
    }
    Ok(())
}

proof fn child_clauses_fail(
    index: IndexModel,
    occur: Occur,
    queries: Seq<QuerySpec>,
    n: int,
    m: int,
)
    requires
        n <= m <= queries.len(),
        child_clauses(index, occur, queries, n) is Err,
    ensures
        child_clauses(index, occur, queries, m) == child_clauses(index, occur, queries, n),
    decreases m - n,
{
    if n < m {
        child_clauses_fail(index, occur, queries, n, m - 1);
    }
}

proof fn pair_clauses_fail(
    index: IndexModel,
    queries: Seq<(BooleanOccur, QuerySpec)>,
    n: int,
    m: int,
)
    requires
        n <= m <= queries.len(),
        pair_clauses(index, queries, n) is Err,
    ensures
        pair_clauses(index, queries, m) == pair_clauses(index, queries, n),
    decreases m - n,
{
    if n < m {
        pair_clauses_fail(index, queries, n, m - 1);
    }
}

proof fn planned_children(index: IndexModel, occur: Occur, queries: Seq<QuerySpec>, n: int)
    requires
        0 <= n <= queries.len(),
    ensures
        child_clauses(index, occur, queries, n) is Ok <==> (forall|k: int|
            0 <= k < n ==> plan(index, #[trigger] queries[k]) is Ok),
    decreases n,
{
    if n > 0 {
        planned_children(index, occur, queries, n - 1);
        assert(child_clauses(index, occur, queries, n) is Ok <==> child_clauses(
            index,
            occur,
            queries,
            n - 1,
        ) is Ok && plan(index, queries[n - 1]) is Ok);
    }
}

proof fn planned_pairs(index: IndexModel, queries: Seq<(BooleanOccur, QuerySpec)>, n: int)
    requires
        0 <= n <= queries.len(),
    ensures
        pair_clauses(index, queries, n) is Ok <==> (forall|k: int|
            0 <= k < n ==> plan(index, (#[trigger] queries[k]).1) is Ok),
    decreases n,
{
    if n > 0 {
        planned_pairs(index, queries, n - 1);
        assert(pair_clauses(index, queries, n) is Ok <==> pair_clauses(index, queries, n - 1) is Ok
            && plan(index, queries[n - 1].1) is Ok);
    }
}

proof fn fewer_children_can_run(index: IndexModel, queries: Seq<QuerySpec>, n: int, m: int)
    requires
        0 <= n <= m <= queries.len(),
        children_can_run(index, queries, m),
    ensures
        children_can_run(index, queries, n),
    decreases m - n,
{
    if n < m {
        fewer_children_can_run(index, queries, n, m - 1);
    }
}

proof fn fewer_pairs_can_run(
    index: IndexModel,
    queries: Seq<(BooleanOccur, QuerySpec)>,
    n: int,
    m: int,
)
    requires
        0 <= n <= m <= queries.len(),
        pairs_can_run(index, queries, m),
    ensures
        pairs_can_run(index, queries, n),
    decreases m - n,
{
    if n < m {
        fewer_pairs_can_run(index, queries, n, m - 1);
    }
}

proof fn child_can_run(index: IndexModel, occur: Occur, queries: Seq<QuerySpec>, i: int)
    requires
        0 <= i < queries.len(),
        children_can_run(index, queries, queries.len() as int),
        child_clauses(index, occur, queries, i) is Ok,
    ensures
        query_can_run(index, queries[i]),
{
    planned_children(index, occur, queries, i);
    fewer_children_can_run(index, queries, i + 1, queries.len() as int);
}

proof fn pair_can_run(index: IndexModel, queries: Seq<(BooleanOccur, QuerySpec)>, i: int)
    requires
        0 <= i < queries.len(),
        pairs_can_run(index, queries, queries.len() as int),
        pair_clauses(index, queries, i) is Ok,
    ensures
        query_can_run(index, queries[i].1),
{
    planned_pairs(index, queries, i);
    fewer_pairs_can_run(index, queries, i + 1, queries.len() as int);
}

/// The plan for a query, or the error that refuses it.
pub fn build_query(index: &OpenIndex, config: &FullTextIndexConfig, query: &QuerySpec) -> (r:
    Result<QueryPlan, FtIndexError>)
    requires
        query_can_run(index_model(*index, *config), *query),
    ensures
        plan_result_is(r, plan(index_model(*index, *config), *query)),
    decreases *query, 0int,
{
    let ghost model = index_model(*index, *config);
    match query {
        QuerySpec::Match {
            column,
            terms,
            operator,
            boost,
            fuzziness,
            max_expansions,
            prefix_length,
        } => {
            let options = FieldMatchOptions {
                operator: *operator,
                boost: *boost,
                fuzziness: *fuzziness,
                max_expansions: *max_expansions,
                prefix_length: *prefix_length,
            };
            build_match_query(index, config, borrowed(column), terms.as_str(), options)
        },
        QuerySpec::MultiMatch {
            terms,
            columns,
            boosts,
            operator,
            fuzziness,
            max_expansions,
            prefix_length,
        } => {
            let options = FieldMatchOptions {
                operator: *operator,
                boost: Score { bits: ONE_BITS },
                fuzziness: *fuzziness,
                max_expansions: *max_expansions,
                prefix_length: *prefix_length,
            };
            build_multi_match_query(index, config, columns, boosts, terms.as_str(), options)
        },
        QuerySpec::MatchPhrase { column, terms, slop } => build_phrase_query(
            index,
            config,
            borrowed(column),
            terms.as_str(),
            *slop,
        ),
        QuerySpec::Boolean { should, must, must_not, queries } => {
            match validate_clauses(should, must, must_not, queries) {
                Ok(_) => {},
                Err(e) => {
                    return Err(e);
                },
            }
            let mut clauses: Vec<(Occur, QueryPlan)> = Vec::new();
            match build_children(index, config, Occur::Should, should, &mut clauses) {
                Ok(_) => {},
                Err(e) => {
                    return Err(e);
                },
            }
            match build_children(index, config, Occur::Must, must, &mut clauses) {
                Ok(_) => {},
                Err(e) => {
                    return Err(e);
                },
            }
            match build_children(index, config, Occur::MustNot, must_not, &mut clauses) {
                Ok(_) => {},
                Err(e) => {
                    return Err(e);
                },
            }
            match build_pairs(index, config, queries, &mut clauses) {
                Ok(_) => {},
                Err(e) => {
                    return Err(e);
                },
            }
            proof {
                boolean_view(clauses);
                let a = child_clauses(model, Occur::Should, should@, should@.len() as int)->Ok_0;
                let b = child_clauses(model, Occur::Must, must@, must@.len() as int)->Ok_0;
                let c = child_clauses(
                    model,
                    Occur::MustNot,
                    must_not@,
                    must_not@.len() as int,
                )->Ok_0;
                let d = pair_clauses(model, queries@, queries@.len() as int)->Ok_0;
                assert(clause_views(clauses@) =~= a + b + c + d);
            }
            Ok(QueryPlan::Boolean(clauses))
        },
        QuerySpec::Boost { positive, negative, negative_boost } => {
            match validate_negative_boost(*negative_boost) {
                Ok(_) => {},
                Err(e) => {
                    return Err(e);
                },
            }
            let positive = match build_query(index, config, positive) {
                Ok(plan) => plan,
                Err(e) => {
                    return Err(e);
                },
            };
            let negative = match build_query(index, config, negative) {
                Ok(plan) => plan,
                Err(e) => {
                    return Err(e);
                },
            };
            Ok(
                QueryPlan::Demote {
                    positive: Box::new(positive),
                    negative: Box::new(negative),
                    negative_boost: *negative_boost,
                },
            )
        },
    }
}

/// A text that may be missing, by reference.
fn borrowed<'a>(text: &'a Option<String>) -> (r: Option<&'a str>)
    ensures
        optional_str(r) == optional_text(*text),
{
    match text {
        Some(t) => Some(t.as_str()),
        None => None,
    }
}

/// Adds a clause for each query of a list.
fn build_children(
    index: &OpenIndex,
    config: &FullTextIndexConfig,
    occur: Occur,
    queries: &Vec<QuerySpec>,
    clauses: &mut Vec<(Occur, QueryPlan)>,
) -> (r: Result<(), FtIndexError>)
    requires
        children_can_run(index_model(*index, *config), queries@, queries@.len() as int),
    ensures
        match (
            r,
            child_clauses(
                index_model(*index, *config),
                occur,
                queries@,
                queries@.len() as int,
            ),
        ) {
            (Ok(_), Ok(added)) => clause_views(final(clauses)@) == clause_views(old(clauses)@)
                + added,
            (Err(e), Err(p)) => e@ == p,
            _ => false,
        },
    decreases *queries, 1int,
{
    let ghost model = index_model(*index, *config);
    let ghost before = clause_views(clauses@);
    let mut i: usize = 0;
    assert(before =~= before + Seq::<(Occur, PlanView)>::empty());
    while i < queries.len()
        invariant
            i <= queries.len(),
            children_can_run(model, queries@, queries@.len() as int),
            model == index_model(*index, *config),
            child_clauses(model, occur, queries@, i as int) is Ok,
            clause_views(clauses@) == before + child_clauses(
                model,
                occur,
                queries@,
                i as int,
            )->Ok_0,
        decreases queries.len() - i,
    {
        proof {
            child_can_run(model, occur, queries@, i as int);
        }
        match build_query(index, config, &queries[i]) {
            Ok(plan) => {
                push_clause(clauses, occur, plan);
                assert(clause_views(clauses@) =~= before + child_clauses(
                    model,
                    occur,
                    queries@,
                    i + 1,
                )->Ok_0);
            },
            Err(e) => {
                proof {
                    assert(child_clauses(model, occur, queries@, i + 1) == Err::<
                        Seq<(Occur, PlanView)>,
                        ErrorView,
                    >(e@));
                    child_clauses_fail(model, occur, queries@, i + 1, queries@.len() as int);
                }
                return Err(e);
            },
        }
        i = i + 1;
    }
    Ok(())
}

/// Adds a clause for each query of a list, each with its own occurrence.
fn build_pairs(
    index: &OpenIndex,
    config: &FullTextIndexConfig,
    queries: &Vec<(BooleanOccur, QuerySpec)>,
    clauses: &mut Vec<(Occur, QueryPlan)>,
) -> (r: Result<(), FtIndexError>)
    requires
        pairs_can_run(index_model(*index, *config), queries@, queries@.len() as int),
    ensures
        match (
            r,
            pair_clauses(index_model(*index, *config), queries@, queries@.len() as int),
        ) {
            (Ok(_), Ok(added)) => clause_views(final(clauses)@) == clause_views(old(clauses)@)
                + added,
            (Err(e), Err(p)) => e@ == p,
            _ => false,
        },
    decreases *queries, 1int,
{
    let ghost model = index_model(*index, *config);
    let ghost before = clause_views(clauses@);
    let mut i: usize = 0;
    assert(before =~= before + Seq::<(Occur, PlanView)>::empty());
    while i < queries.len()
        invariant
            i <= queries.len(),
            pairs_can_run(model, queries@, queries@.len() as int),
            model == index_model(*index, *config),
            pair_clauses(model, queries@, i as int) is Ok,
            clause_views(clauses@) == before + pair_clauses(model, queries@, i as int)->Ok_0,
        decreases queries.len() - i,
    {
        let occur = match queries[i].0 {
            BooleanOccur::Should => Occur::Should,
            BooleanOccur::Must => Occur::Must,
            BooleanOccur::MustNot => Occur::MustNot,
        };
        proof {
            pair_can_run(model, queries@, i as int);
        }
        match build_query(index, config, &queries[i].1) {
            Ok(plan) => {
                push_clause(clauses, occur, plan);
                assert(clause_views(clauses@) =~= before + pair_clauses(
                    model,
                    queries@,
                    i + 1,
                )->Ok_0);
            },
            Err(e) => {
                proof {
                    assert(pair_clauses(model, queries@, i + 1) == Err::<
                        Seq<(Occur, PlanView)>,
                        ErrorView,
                    >(e@));
                    pair_clauses_fail(model, queries@, i + 1, queries@.len() as int);
                }
                return Err(e);
            },
        }
        i = i + 1;
    }
    Ok(())
}

/// Whether the analyzer of an index is that of the configuration.
pub open spec fn analyzes_as_configured(index: OpenIndex, config: FullTextIndexConfig) -> bool {
    planned_stages(config@.tokenizer) == Ok::<Seq<Stage>, ErrorView>(
        analyzer_stages(index.analyzer),
    )
}

/// Whether the tokens of a text in a field can be planned.
fn can_build_field_match(
    index: &OpenIndex,
    config: &FullTextIndexConfig,
    terms: &str,
    boost: Score,
) -> (r: bool)
    requires
        analyzes_as_configured(*index, *config),
    ensures
        r == field_match_can_run(index_model(*index, *config), terms@, boost),
{
    match validate_boost(boost) {
        Ok(_) => can_analyze(&config.tokenizer, terms),
        Err(_) => true,
    }
}

/// Whether a match can be planned.
fn can_build_match(
    index: &OpenIndex,
    config: &FullTextIndexConfig,
    column: Option<&str>,
    terms: &str,
    options: FieldMatchOptions,
) -> (r: bool)
    requires
        analyzes_as_configured(*index, *config),
    ensures
        r == match_can_run(index_model(*index, *config), optional_str(column), terms@, options),
{
    match validate_match_options(options.fuzziness, options.max_expansions, options.prefix_length) {
        Ok(_) => {},
        Err(_) => {
            return true;
        },
    }
    match resolve_match_fields(index, config, column) {
        Ok(fields) => fields.is_empty() || can_build_field_match(
            index,
            config,
            terms,
            options.boost,
        ),
        Err(_) => true,
    }
}

/// Whether a match in several fields can be planned.
fn can_build_multi_match(
    index: &OpenIndex,
    config: &FullTextIndexConfig,
    columns: &Vec<String>,
    boosts: &Vec<Score>,
    terms: &str,
    options: FieldMatchOptions,
) -> (r: bool)
    requires
        analyzes_as_configured(*index, *config),
    ensures
        r == multi_match_can_run(
            index_model(*index, *config),
            text_views(columns@),
            boosts@,
            terms@,
            options,
        ),
{
    match validate_multi_match_options(
        columns,
        boosts,
        options.fuzziness,
        options.max_expansions,
        options.prefix_length,
    ) {
        Ok(_) => {},
        Err(_) => {
            return true;
        },
    }
    assert(text_views(columns@).len() == columns@.len());
    assert(text_views(columns@)[0] == columns@[0]@);
    match resolve_text_field(index, config, Some(columns[0].as_str())) {
        Ok(_) => can_analyze(&config.tokenizer, terms),
        Err(_) => true,
    }
}

/// Whether a phrase can be planned.
fn can_build_phrase(
    index: &OpenIndex,
    config: &FullTextIndexConfig,
    column: Option<&str>,
    terms: &str,
) -> (r: bool)
    requires
        analyzes_as_configured(*index, *config),
    ensures
        r == phrase_can_run(index_model(*index, *config), optional_str(column), terms@),
{
    if !config.tokenizer.with_position {
        return true;
    }
    match resolve_text_field(index, config, column) {
        Ok(_) => can_analyze(&config.tokenizer, terms),
        Err(_) => true,
    }
}

/// Whether a query can be planned.
pub fn can_build_query(index: &OpenIndex, config: &FullTextIndexConfig, query: &QuerySpec) -> (r:
    bool)
    requires
        analyzes_as_configured(*index, *config),
    ensures
        r == query_can_run(index_model(*index, *config), *query),
    decreases *query, 0int,
{
    match query {
        QuerySpec::Match {
            column,
            terms,
            operator,
            boost,
            fuzziness,
            max_expansions,
            prefix_length,
        } => {
            let options = FieldMatchOptions {
                operator: *operator,
                boost: *boost,
                fuzziness: *fuzziness,
                max_expansions: *max_expansions,
                prefix_length: *prefix_length,
            };
            can_build_match(index, config, borrowed(column), terms.as_str(), options)
        },
        QuerySpec::MultiMatch {
            terms,
            columns,
            boosts,
            operator,
            fuzziness,
            max_expansions,
            prefix_length,
        } => {
            let options = FieldMatchOptions {
                operator: *operator,
                boost: Score { bits: ONE_BITS },
                fuzziness: *fuzziness,
                max_expansions: *max_expansions,
                prefix_length: *prefix_length,
            };
            can_build_multi_match(index, config, columns, boosts, terms.as_str(), options)
        },
        QuerySpec::MatchPhrase { column, terms, .. } => can_build_phrase(
            index,
            config,
            borrowed(column),
            terms.as_str(),
        ),
        QuerySpec::Boolean { should, must, must_not, queries } => {
            if validate_clauses(should, must, must_not, queries).is_err() {
                return true;
            }
            match plans_children(index, config, Occur::Should, should) {
                Some(true) => {},
                Some(false) => {
                    return true;
                },
                None => {
                    return false;
                },
            }
            match plans_children(index, config, Occur::Must, must) {
                Some(true) => {},
                Some(false) => {
                    return true;
                },
                None => {
                    return false;
                },
            }
            match plans_children(index, config, Occur::MustNot, must_not) {
                Some(true) => {},
                Some(false) => {
                    return true;
                },
                None => {
                    return false;
                },
            }
            can_build_pairs(index, config, queries)
        },
        QuerySpec::Boost { positive, negative, negative_boost } => {
            if validate_negative_boost(*negative_boost).is_err() {
                return true;
            }
            if !can_build_query(index, config, positive) {
                return false;
            }
            build_query(index, config, positive).is_err() || can_build_query(
                index,
                config,
                negative,
            )
        },
    }
}

/// Whether all queries of a list are planned, or nothing if one before the first that is refused
/// cannot be.
fn plans_children(
    index: &OpenIndex,
    config: &FullTextIndexConfig,
    occur: Occur,
    queries: &Vec<QuerySpec>,
) -> (r: Option<bool>)
    requires
        analyzes_as_configured(*index, *config),
    ensures
        r is Some == children_can_run(
            index_model(*index, *config),
            queries@,
            queries@.len() as int,
        ),
        r matches Some(planned) ==> planned == (child_clauses(
            index_model(*index, *config),
            occur,
            queries@,
            queries@.len() as int,
        ) is Ok),
    decreases *queries, 1int,
{
    let ghost model = index_model(*index, *config);
    let ghost total = queries@.len() as int;
    let mut i: usize = 0;
    while i < queries.len()
        invariant
            i <= queries.len(),
            total == queries@.len(),
            model == index_model(*index, *config),
            analyzes_as_configured(*index, *config),
            children_can_run(model, queries@, i as int),
            child_clauses(model, occur, queries@, i as int) is Ok,
        decreases queries.len() - i,
    {
        proof {
            planned_children(model, occur, queries@, i as int);
        }
        if !can_build_query(index, config, &queries[i]) {
            proof {
                if children_can_run(model, queries@, total) {
                    fewer_children_can_run(model, queries@, i + 1, total);
                }
            }
            return None;
        }
        if build_query(index, config, &queries[i]).is_err() {
            proof {
                child_clauses_fail(model, occur, queries@, i + 1, total);
                refused_children_can_run(model, queries@, i as int, total);
            }
            return Some(false);
        }
        i = i + 1;
    }
    Some(true)
}

/// Whether the queries of a list can be planned, up to the first that is refused.
fn can_build_pairs(
    index: &OpenIndex,
    config: &FullTextIndexConfig,
    queries: &Vec<(BooleanOccur, QuerySpec)>,
) -> (r: bool)
    requires
        analyzes_as_configured(*index, *config),
    ensures
        r == pairs_can_run(index_model(*index, *config), queries@, queries@.len() as int),
    decreases *queries, 1int,
{
    let ghost model = index_model(*index, *config);
    let ghost total = queries@.len() as int;
    let mut i: usize = 0;
    while i < queries.len()
        invariant
            i <= queries.len(),
            total == queries@.len(),
            model == index_model(*index, *config),
            analyzes_as_configured(*index, *config),
            pairs_can_run(model, queries@, i as int),
            pair_clauses(model, queries@, i as int) is Ok,
        decreases queries.len() - i,
    {
        proof {
            planned_pairs(model, queries@, i as int);
        }
        if !can_build_query(index, config, &queries[i].1) {
            proof {
                if pairs_can_run(model, queries@, total) {
                    fewer_pairs_can_run(model, queries@, i + 1, total);
                }
            }
            return false;
        }
        if build_query(index, config, &queries[i].1).is_err() {
            proof {
                refused_pairs_can_run(model, queries@, i as int, total);
            }
            return true;
        }
        i = i + 1;
    }
    true
}

proof fn refused_children_can_run(index: IndexModel, queries: Seq<QuerySpec>, i: int, m: int)
    requires
        0 <= i < m <= queries.len(),
        children_can_run(index, queries, i + 1),
        plan(index, queries[i]) is Err,
    ensures
        children_can_run(index, queries, m),
    decreases m - i,
{
    if i + 1 < m {
        refused_children_can_run(index, queries, i, m - 1);
    }
}

proof fn refused_pairs_can_run(
    index: IndexModel,
    queries: Seq<(BooleanOccur, QuerySpec)>,
    i: int,
    m: int,
)
    requires
        0 <= i < m <= queries.len(),
        pairs_can_run(index, queries, i + 1),
        plan(index, queries[i].1) is Err,
    ensures
        pairs_can_run(index, queries, m),
    decreases m - i,
{
    if i + 1 < m {
        refused_pairs_can_run(index, queries, i, m - 1);
    }
}

} // verus!

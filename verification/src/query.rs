//! Queries, and the plans that they are turned into.
//!
//! A plan says which of tantivy's queries to run: it names fields by their ids and holds tokens
//! where a query holds texts.
use crate::score::Score;
use tantivy::query::Occur;
use vstd::prelude::*;

verus! {

/// How tantivy combines a clause with the others. The type is known by its variants, which hold no
/// fields.
#[verifier::external_type_specification]
pub struct ExOccur(Occur);

/// Whether one token or every token of a text must match.
#[derive(Clone, Copy, Debug, PartialEq, Eq, Structural)]
pub enum MatchOperator {
    Or,
    And,
}

/// How a clause of a boolean query counts.
#[derive(Clone, Copy, Debug, PartialEq, Eq, Structural)]
pub enum BooleanOccur {
    Should,
    Must,
    MustNot,
}

/// A query.
#[derive(Debug, PartialEq, Eq)]
pub enum QuerySpec {
    /// The tokens of a text, in one field or in all.
    Match {
        column: Option<String>,
        terms: String,
        operator: MatchOperator,
        boost: Score,
        fuzziness: Option<u8>,
        max_expansions: usize,
        prefix_length: u32,
    },
    /// The tokens of a text in several fields, each with a boost of its own.
    MultiMatch {
        terms: String,
        columns: Vec<String>,
        boosts: Vec<Score>,
        operator: MatchOperator,
        fuzziness: Option<u8>,
        max_expansions: usize,
        prefix_length: u32,
    },
    /// The tokens of a text next to each other, or at most `slop` apart.
    MatchPhrase { column: Option<String>, terms: String, slop: u32 },
    /// Queries that should, must or must not match.
    Boolean {
        should: Vec<QuerySpec>,
        must: Vec<QuerySpec>,
        must_not: Vec<QuerySpec>,
        queries: Vec<(BooleanOccur, QuerySpec)>,
    },
    /// What matches `positive`, ranked lower where it matches `negative` too.
    Boost { positive: Box<QuerySpec>, negative: Box<QuerySpec>, negative_boost: Score },
}

/// A query as tantivy runs it.
#[derive(Debug)]
pub enum QueryPlan {
    /// Matches nothing.
    Empty,
    /// Matches the documents that have the token in the field.
    Term { field: u32, token: String },
    /// Matches the documents that have, in the field, a token that begins with `prefix` and is
    /// within the edit distance of `token`. At most `max_expansions` such tokens are looked up.
    Fuzzy { field: u32, token: String, distance: u8, prefix: String, max_expansions: usize },
    /// What tantivy's query parser makes of the text, with the field as its default.
    Phrase { field: u32, query_text: String },
    /// Several queries together.
    Boolean(Vec<(Occur, QueryPlan)>),
    /// The same matches, with each score multiplied by the boost.
    Boosted { query: Box<QueryPlan>, boost: Score },
    /// What `positive` matches, with the score multiplied by the negative boost where `negative`
    /// matches too.
    Demote { positive: Box<QueryPlan>, negative: Box<QueryPlan>, negative_boost: Score },
}

/// The model of a plan: its texts by their characters.
pub enum PlanView {
    Empty,
    Term { field: u32, token: Seq<char> },
    Fuzzy {
        field: u32,
        token: Seq<char>,
        distance: u8,
        prefix: Seq<char>,
        max_expansions: usize,
    },
    Phrase { field: u32, query_text: Seq<char> },
    Boolean(Seq<(Occur, PlanView)>),
    Boosted { query: Box<PlanView>, boost: Score },
    Demote { positive: Box<PlanView>, negative: Box<PlanView>, negative_boost: Score },
}

/// The model of a plan.
pub open spec fn plan_view(plan: QueryPlan) -> PlanView
    decreases plan,
{
    match plan {
        QueryPlan::Empty => PlanView::Empty,
        QueryPlan::Term { field, token } => PlanView::Term { field, token: token@ },
        QueryPlan::Fuzzy { field, token, distance, prefix, max_expansions } => PlanView::Fuzzy {
            field,
            token: token@,
            distance,
            prefix: prefix@,
            max_expansions,
        },
        QueryPlan::Phrase { field, query_text } => PlanView::Phrase {
            field,
            query_text: query_text@,
        },
        QueryPlan::Boolean(clauses) => PlanView::Boolean(
            Seq::new(
                clauses@.len(),
                |i: int|
                    if 0 <= i < clauses@.len() {
                        (clauses@[i].0, plan_view(clauses@[i].1))
                    } else {
                        (Occur::Should, PlanView::Empty)
                    },
            ),
        ),
        QueryPlan::Boosted { query, boost } => PlanView::Boosted {
            query: Box::new(plan_view(*query)),
            boost,
        },
        QueryPlan::Demote { positive, negative, negative_boost } => PlanView::Demote {
            positive: Box::new(plan_view(*positive)),
            negative: Box::new(plan_view(*negative)),
            negative_boost,
        },
    }
}

impl View for QueryPlan {
    type V = PlanView;

    open spec fn view(&self) -> PlanView {
        plan_view(*self)
    }
}

/// The models of a list of clauses.
pub open spec fn clause_views(clauses: Seq<(Occur, QueryPlan)>) -> Seq<(Occur, PlanView)> {
    clauses.map_values(|c: (Occur, QueryPlan)| (c.0, c.1@))
}

/// The model of a boolean plan holds the models of its clauses.
pub proof fn boolean_view(clauses: Vec<(Occur, QueryPlan)>)
    ensures
        QueryPlan::Boolean(clauses)@ == PlanView::Boolean(clause_views(clauses@)),
{
    match QueryPlan::Boolean(clauses)@ {
        PlanView::Boolean(views) => {
            assert(views =~= clause_views(clauses@));
        },
        _ => {},
    }
}

/// The model of a plan shows all that the plan holds: its fields, its texts character by character,
/// its numbers, and the models of the plans in it, in their order.
pub proof fn models_show_what_plans_hold(plan: QueryPlan)
    ensures
        plan matches QueryPlan::Empty ==> plan@ == PlanView::Empty,
        plan matches QueryPlan::Term { field, token } ==> plan@ == (PlanView::Term {
            field,
            token: token@,
        }),
        plan matches QueryPlan::Fuzzy { field, token, distance, prefix, max_expansions } ==> plan@
            == (PlanView::Fuzzy {
            field,
            token: token@,
            distance,
            prefix: prefix@,
            max_expansions,
        }),
        plan matches QueryPlan::Phrase { field, query_text } ==> plan@ == (PlanView::Phrase {
            field,
            query_text: query_text@,
        }),
        plan matches QueryPlan::Boosted { query, boost } ==> plan@ == (PlanView::Boosted {
            query: Box::new((*query)@),
            boost,
        }),
        plan matches QueryPlan::Demote { positive, negative, negative_boost } ==> plan@ == (
        PlanView::Demote {
            positive: Box::new((*positive)@),
            negative: Box::new((*negative)@),
            negative_boost,
        }),
        plan matches QueryPlan::Boolean(clauses) ==> (plan@ matches PlanView::Boolean(views)
            && views.len() == clauses@.len() && forall|i: int|
            0 <= i < clauses@.len() ==> #[trigger] views[i] == (clauses@[i].0, clauses@[i].1@)),
{
    if let QueryPlan::Boolean(clauses) = plan {
        boolean_view(clauses);
    }
}

} // verus!

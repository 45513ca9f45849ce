//! What holds of the clauses of a boolean query, in whichever of its lists they stand.
use crate::plan_model::{
    any_positive, boolean_problem, child_clauses, clause_occur, is_positive, pair_clauses, plan,
    IndexModel,
};
use crate::query::{BooleanOccur, PlanView, QuerySpec};
use tantivy::query::Occur;
use vstd::multiset::Multiset;
use vstd::prelude::*;

verus! {

/// The queries of a list as clauses that all count in the same way.
pub open spec fn listed(occur: BooleanOccur, queries: Seq<QuerySpec>) -> Seq<
    (BooleanOccur, QuerySpec),
> {
    queries.map_values(|q: QuerySpec| (occur, q))
}

/// The queries of a boolean query that stand in the list for this occurrence.
pub open spec fn list_of(query: QuerySpec, occur: BooleanOccur) -> Seq<QuerySpec> {
    match (query, occur) {
        (QuerySpec::Boolean { should, .. }, BooleanOccur::Should) => should@,
        (QuerySpec::Boolean { must, .. }, BooleanOccur::Must) => must@,
        (QuerySpec::Boolean { must_not, .. }, BooleanOccur::MustNot) => must_not@,
        _ => Seq::empty(),
    }
}

/// The clauses of a boolean query that stand with their occurrence.
pub open spec fn pairs_of(query: QuerySpec) -> Seq<(BooleanOccur, QuerySpec)> {
    match query {
        QuerySpec::Boolean { queries, .. } => queries@,
        _ => Seq::empty(),
    }
}

/// All clauses of a boolean query.
pub open spec fn all_clauses(query: QuerySpec) -> Seq<(BooleanOccur, QuerySpec)> {
    listed(BooleanOccur::Should, list_of(query, BooleanOccur::Should)) + listed(
        BooleanOccur::Must,
        list_of(query, BooleanOccur::Must),
    ) + listed(BooleanOccur::MustNot, list_of(query, BooleanOccur::MustNot)) + pairs_of(query)
}

/// Whether each of the clauses has a plan.
pub open spec fn all_planned(
    index: IndexModel,
    clauses: Seq<(BooleanOccur, QuerySpec)>,
) -> bool {
    forall|i: int| 0 <= i < clauses.len() ==> plan(index, (#[trigger] clauses[i]).1) is Ok
}

/// The plans of the clauses, each with tantivy's occurrence.
pub open spec fn planned_clauses(
    index: IndexModel,
    clauses: Seq<(BooleanOccur, QuerySpec)>,
) -> Seq<(Occur, PlanView)> {
    clauses.map_values(
        |c: (BooleanOccur, QuerySpec)| (clause_occur(c.0), plan(index, c.1)->Ok_0),
    )
}

proof fn pairs_are_planned(index: IndexModel, queries: Seq<(BooleanOccur, QuerySpec)>, n: int)
    requires
        0 <= n <= queries.len(),
    ensures
        pair_clauses(index, queries, n) is Ok <==> all_planned(index, queries.take(n)),
        pair_clauses(index, queries, n) matches Ok(clauses) ==> clauses == planned_clauses(
            index,
            queries.take(n),
        ),
    decreases n,
{
    if n > 0 {
        pairs_are_planned(index, queries, n - 1);
        let now = queries.take(n);
        let before = queries.take(n - 1);
        assert(now =~= before.push(queries[n - 1]));
        assert(planned_clauses(index, now) =~= planned_clauses(index, before).push(
            (clause_occur(queries[n - 1].0), plan(index, queries[n - 1].1)->Ok_0),
        ));
        assert(all_planned(index, now) <==> all_planned(index, before) && plan(
            index,
            queries[n - 1].1,
        ) is Ok) by {
            assert(now[n - 1] == queries[n - 1]);
            assert forall|i: int| 0 <= i < before.len() implies before[i] == #[trigger] now[i] by {}
            assert forall|i: int| 0 <= i < before.len() implies #[trigger] before[i] == now[i] by {}
        }
    }
}

proof fn children_are_pairs(
    index: IndexModel,
    occur: BooleanOccur,
    queries: Seq<QuerySpec>,
    n: int,
)
    requires
        0 <= n <= queries.len(),
    ensures
        child_clauses(index, clause_occur(occur), queries, n) == pair_clauses(
            index,
            listed(occur, queries),
            n,
        ),
    decreases n,
{
    if n > 0 {
        children_are_pairs(index, occur, queries, n - 1);
        assert(listed(occur, queries)[n - 1] == (occur, queries[n - 1]));
    }
}

proof fn list_is_planned(index: IndexModel, occur: BooleanOccur, queries: Seq<QuerySpec>)
    ensures
        child_clauses(index, clause_occur(occur), queries, queries.len() as int) is Ok
            <==> all_planned(index, listed(occur, queries)),
        child_clauses(index, clause_occur(occur), queries, queries.len() as int) matches Ok(clauses)
            ==> clauses == planned_clauses(index, listed(occur, queries)),
{
    let clauses = listed(occur, queries);
    children_are_pairs(index, occur, queries, queries.len() as int);
    pairs_are_planned(index, clauses, clauses.len() as int);
    assert(clauses.take(clauses.len() as int) =~= clauses);
}

proof fn planned_together(
    index: IndexModel,
    a: Seq<(BooleanOccur, QuerySpec)>,
    b: Seq<(BooleanOccur, QuerySpec)>,
)
    ensures
        all_planned(index, a + b) <==> all_planned(index, a) && all_planned(index, b),
        planned_clauses(index, a + b) == planned_clauses(index, a) + planned_clauses(index, b),
        any_positive(a + b) <==> any_positive(a) || any_positive(b),
{
    assert(planned_clauses(index, a + b) =~= planned_clauses(index, a) + planned_clauses(index, b));
    assert forall|i: int| 0 <= i < a.len() implies #[trigger] a[i] == (a + b)[i] by {}
    assert forall|i: int| 0 <= i < b.len() implies #[trigger] b[i] == (a + b)[a.len() + i] by {}
    assert forall|i: int| 0 <= i < (a + b).len() implies #[trigger] (a + b)[i] == (if i < a.len() {
        a[i]
    } else {
        b[i - a.len()]
    }) by {}
}

proof fn positive_list(occur: BooleanOccur, queries: Seq<QuerySpec>)
    ensures
        any_positive(listed(occur, queries)) <==> is_positive(occur) && queries.len() > 0,
{
    if queries.len() > 0 {
        assert(listed(occur, queries)[0].0 == occur);
    }
}

/// A boolean query has a plan exactly if one of its clauses looks for something and each of them
/// has a plan. It is then made of the plans of the clauses.
pub proof fn boolean_plan_is_of_its_clauses(index: IndexModel, query: QuerySpec)
    requires
        query is Boolean,
    ensures
        plan(index, query) is Ok <==> any_positive(all_clauses(query)) && all_planned(
            index,
            all_clauses(query),
        ),
        plan(index, query) matches Ok(p) ==> p == PlanView::Boolean(
            planned_clauses(index, all_clauses(query)),
        ),
{
    let should = list_of(query, BooleanOccur::Should);
    let must = list_of(query, BooleanOccur::Must);
    let must_not = list_of(query, BooleanOccur::MustNot);
    let queries = pairs_of(query);
    list_is_planned(index, BooleanOccur::Should, should);
    list_is_planned(index, BooleanOccur::Must, must);
    list_is_planned(index, BooleanOccur::MustNot, must_not);
    pairs_are_planned(index, queries, queries.len() as int);
    assert(queries.take(queries.len() as int) =~= queries);
    positive_list(BooleanOccur::Should, should);
    positive_list(BooleanOccur::Must, must);
    positive_list(BooleanOccur::MustNot, must_not);
    let a = listed(BooleanOccur::Should, should);
    let b = listed(BooleanOccur::Must, must);
    let c = listed(BooleanOccur::MustNot, must_not);
    planned_together(index, a, b);
    planned_together(index, a + b, c);
    planned_together(index, a + b + c, queries);
    assert(boolean_problem(should, must, must_not, queries) is None <==> any_positive(
        all_clauses(query),
    ));
}

proof fn mapped_alike<A, B>(s: Seq<A>, t: Seq<A>, f: spec_fn(A) -> B)
    requires
        s.to_multiset() == t.to_multiset(),
    ensures
        s.map_values(f).to_multiset() == t.map_values(f).to_multiset(),
    decreases s.len(),
{
    s.to_multiset_ensures();
    t.to_multiset_ensures();
    if s.len() == 0 {
        assert(s.map_values(f) =~= t.map_values(f));
    } else {
        let n = s.len() - 1;
        let x = s[n];
        assert(s.contains(x));
        assert(t.to_multiset().count(x) > 0);
        let k = choose|k: int| 0 <= k < t.len() && t[k] == x;
        mapped_alike(s.remove(n), t.remove(k), f);
        assert(s.remove(n).map_values(f) =~= s.map_values(f).remove(n));
        assert(t.remove(k).map_values(f) =~= t.map_values(f).remove(k));
        let a = s.map_values(f).to_multiset();
        let b = t.map_values(f).to_multiset();
        s.map_values(f).to_multiset_ensures();
        t.map_values(f).to_multiset_ensures();
        assert(s.map_values(f)[n] == f(x));
        assert(t.map_values(f)[k] == f(x));
        assert(s.map_values(f).contains(f(x)));
        assert(t.map_values(f).contains(f(x)));
        assert(a.remove(f(x)) == b.remove(f(x)));
        assert(a =~= a.remove(f(x)).insert(f(x)));
        assert(b =~= b.remove(f(x)).insert(f(x)));
    }
}

proof fn found_alike<A>(s: Seq<A>, t: Seq<A>, i: int) -> (k: int)
    requires
        s.to_multiset() == t.to_multiset(),
        0 <= i < s.len(),
    ensures
        0 <= k < t.len(),
        t[k] == s[i],
{
    s.to_multiset_ensures();
    t.to_multiset_ensures();
    assert(s.contains(s[i]));
    assert(t.to_multiset().count(s[i]) > 0);
    choose|k: int| 0 <= k < t.len() && t[k] == s[i]
}

proof fn accepted_alike(
    index: IndexModel,
    s: Seq<(BooleanOccur, QuerySpec)>,
    t: Seq<(BooleanOccur, QuerySpec)>,
)
    requires
        s.to_multiset() == t.to_multiset(),
        any_positive(s),
        all_planned(index, s),
    ensures
        any_positive(t),
        all_planned(index, t),
{
    let i = choose|i: int| 0 <= i < s.len() && is_positive((#[trigger] s[i]).0);
    let k = found_alike(s, t, i);
    assert(is_positive(t[k].0));
    assert forall|j: int| 0 <= j < t.len() implies plan(index, (#[trigger] t[j]).1) is Ok by {
        let m = found_alike(t, s, j);
        assert(plan(index, s[m].1) is Ok);
    }
}

/// The plans of a boolean query's clauses, each as often as it occurs.
pub open spec fn clause_counts(p: PlanView) -> Multiset<(Occur, PlanView)> {
    match p {
        PlanView::Boolean(clauses) => clauses.to_multiset(),
        _ => Multiset::empty(),
    }
}

/// Two boolean queries with the same clauses are planned alike, whatever the lists and the order in
/// which the clauses stand: both are refused, or both are made of the same plans.
pub proof fn same_clauses_are_planned_alike(index: IndexModel, a: QuerySpec, b: QuerySpec)
    requires
        a is Boolean,
        b is Boolean,
        all_clauses(a).to_multiset() == all_clauses(b).to_multiset(),
    ensures
        plan(index, a) is Ok <==> plan(index, b) is Ok,
        plan(index, a) is Ok ==> {
            &&& plan(index, a)->Ok_0 is Boolean
            &&& plan(index, b)->Ok_0 is Boolean
            &&& clause_counts(plan(index, a)->Ok_0) == clause_counts(plan(index, b)->Ok_0)
        },
{
    boolean_plan_is_of_its_clauses(index, a);
    boolean_plan_is_of_its_clauses(index, b);
    if plan(index, a) is Ok {
        accepted_alike(index, all_clauses(a), all_clauses(b));
    }
    if plan(index, b) is Ok {
        accepted_alike(index, all_clauses(b), all_clauses(a));
    }
    mapped_alike(
        all_clauses(a),
        all_clauses(b),
        |c: (BooleanOccur, QuerySpec)| (clause_occur(c.0), plan(index, c.1)->Ok_0),
    );
}

/// Whether `b` is the boolean query `a` with one clause moved from the list for its occurrence, where
/// it is the `i`-th, to the clauses that stand with their occurrence, where it is the `j`-th.
pub open spec fn clause_is_moved(
    a: QuerySpec,
    b: QuerySpec,
    occur: BooleanOccur,
    i: int,
    j: int,
) -> bool {
    &&& a is Boolean
    &&& b is Boolean
    &&& 0 <= i < list_of(a, occur).len()
    &&& 0 <= j <= pairs_of(a).len()
    &&& list_of(b, occur) == list_of(a, occur).remove(i)
    &&& pairs_of(b) == pairs_of(a).insert(j, (occur, list_of(a, occur)[i]))
    &&& forall|o: BooleanOccur| o != occur ==> #[trigger] list_of(b, o) == list_of(a, o)
}

proof fn listed_without(occur: BooleanOccur, queries: Seq<QuerySpec>, i: int)
    requires
        0 <= i < queries.len(),
    ensures
        listed(occur, queries).to_multiset() == listed(
            occur,
            queries.remove(i),
        ).to_multiset().insert((occur, queries[i])),
{
    let clauses = listed(occur, queries);
    assert(listed(occur, queries.remove(i)) =~= clauses.remove(i));
    assert(clauses.remove(i).insert(i, clauses[i]) =~= clauses);
    vstd::seq_lib::to_multiset_insert(clauses.remove(i), i, clauses[i]);
}

/// Moving a clause between the list for its occurrence and the clauses that stand with their
/// occurrence, in either direction, changes neither whether the query is refused nor what its plan
/// is made of.
pub proof fn moved_clause_is_planned_alike(
    index: IndexModel,
    a: QuerySpec,
    b: QuerySpec,
    occur: BooleanOccur,
    i: int,
    j: int,
)
    requires
        clause_is_moved(a, b, occur, i, j),
    ensures
        plan(index, a) is Ok <==> plan(index, b) is Ok,
        plan(index, a) is Ok ==> {
            &&& plan(index, a)->Ok_0 is Boolean
            &&& plan(index, b)->Ok_0 is Boolean
            &&& clause_counts(plan(index, a)->Ok_0) == clause_counts(plan(index, b)->Ok_0)
        },
{
    clauses_add_up(a);
    clauses_add_up(b);
    listed_without(occur, list_of(a, occur), i);
    vstd::seq_lib::to_multiset_insert(pairs_of(a), j, (occur, list_of(a, occur)[i]));
    assert(list_of(b, BooleanOccur::Should) == list_of(a, BooleanOccur::Should) || occur
        == BooleanOccur::Should);
    assert(list_of(b, BooleanOccur::Must) == list_of(a, BooleanOccur::Must) || occur
        == BooleanOccur::Must);
    assert(list_of(b, BooleanOccur::MustNot) == list_of(a, BooleanOccur::MustNot) || occur
        == BooleanOccur::MustNot);
    assert(all_clauses(a).to_multiset() =~= all_clauses(b).to_multiset());
    same_clauses_are_planned_alike(index, a, b);
}

proof fn clauses_add_up(query: QuerySpec)
    ensures
        all_clauses(query).to_multiset() == listed(
            BooleanOccur::Should,
            list_of(query, BooleanOccur::Should),
        ).to_multiset().add(
            listed(BooleanOccur::Must, list_of(query, BooleanOccur::Must)).to_multiset(),
        ).add(
            listed(BooleanOccur::MustNot, list_of(query, BooleanOccur::MustNot)).to_multiset(),
        ).add(pairs_of(query).to_multiset()),
{
    let a = listed(BooleanOccur::Should, list_of(query, BooleanOccur::Should));
    let b = listed(BooleanOccur::Must, list_of(query, BooleanOccur::Must));
    let c = listed(BooleanOccur::MustNot, list_of(query, BooleanOccur::MustNot));
    vstd::seq_lib::lemma_multiset_commutative(a, b);
    vstd::seq_lib::lemma_multiset_commutative(a + b, c);
    vstd::seq_lib::lemma_multiset_commutative(a + b + c, pairs_of(query));
}

/// A boolean query has a plan exactly if it has a clause that should or must match and each of its
/// queries has a plan. The plan has one clause for each query: first those that should match, then
/// those that must, then those that must not, then those that stand with their occurrence. Each
/// counts in tantivy as it does in the query.
pub proof fn clauses_count_as_they_are_given(
    index: IndexModel,
    query: QuerySpec,
    should: Vec<QuerySpec>,
    must: Vec<QuerySpec>,
    must_not: Vec<QuerySpec>,
    queries: Vec<(BooleanOccur, QuerySpec)>,
)
    requires
        query == (QuerySpec::Boolean { should, must, must_not, queries }),
    ensures
        plan(index, query) is Ok <==> {
            &&& should@.len() > 0 || must@.len() > 0 || exists|i: int|
                0 <= i < queries@.len() && (#[trigger] queries@[i]).0 != BooleanOccur::MustNot
            &&& forall|i: int| 0 <= i < should@.len() ==> plan(index, #[trigger] should@[i]) is Ok
            &&& forall|i: int| 0 <= i < must@.len() ==> plan(index, #[trigger] must@[i]) is Ok
            &&& forall|i: int|
                0 <= i < must_not@.len() ==> plan(index, #[trigger] must_not@[i]) is Ok
            &&& forall|i: int|
                0 <= i < queries@.len() ==> plan(index, (#[trigger] queries@[i]).1) is Ok
        },
        plan(index, query) matches Ok(p) ==> {
            &&& p matches PlanView::Boolean(clauses)
            &&& clauses.len() == should@.len() + must@.len() + must_not@.len() + queries@.len()
            &&& forall|i: int|
                0 <= i < should@.len() ==> #[trigger] clauses[i] == (
                    Occur::Should,
                    plan(index, should@[i])->Ok_0,
                )
            &&& forall|i: int|
                0 <= i < must@.len() ==> #[trigger] clauses[should@.len() + i] == (
                    Occur::Must,
                    plan(index, must@[i])->Ok_0,
                )
            &&& forall|i: int|
                0 <= i < must_not@.len() ==> #[trigger] clauses[should@.len() + must@.len() + i]
                    == (Occur::MustNot, plan(index, must_not@[i])->Ok_0)
            &&& forall|i: int|
                0 <= i < queries@.len() ==> {
                    let clause = #[trigger] clauses[should@.len() + must@.len() + must_not@.len()
                        + i];
                    &&& queries@[i].0 == BooleanOccur::Should ==> clause.0 == Occur::Should
                    &&& queries@[i].0 == BooleanOccur::Must ==> clause.0 == Occur::Must
                    &&& queries@[i].0 == BooleanOccur::MustNot ==> clause.0 == Occur::MustNot
                    &&& clause.1 == plan(index, queries@[i].1)->Ok_0
                }
        },
{
    let a = listed(BooleanOccur::Should, should@);
    let b = listed(BooleanOccur::Must, must@);
    let c = listed(BooleanOccur::MustNot, must_not@);
    let all = all_clauses(query);
    boolean_plan_is_of_its_clauses(index, query);
    positive_list(BooleanOccur::Should, should@);
    positive_list(BooleanOccur::Must, must@);
    positive_list(BooleanOccur::MustNot, must_not@);
    planned_together(index, a, b);
    planned_together(index, a + b, c);
    planned_together(index, a + b + c, queries@);
    assert(all == a + b + c + queries@);
    assert forall|i: int| 0 <= i < should@.len() implies #[trigger] should@[i] == a[i].1 by {}
    assert forall|i: int| 0 <= i < must@.len() implies #[trigger] must@[i] == b[i].1 by {}
    assert forall|i: int| 0 <= i < must_not@.len() implies #[trigger] must_not@[i] == c[i].1 by {}
    assert forall|i: int| 0 <= i < a.len() implies should@[i] == (#[trigger] a[i]).1 by {}
    assert forall|i: int| 0 <= i < b.len() implies must@[i] == (#[trigger] b[i]).1 by {}
    assert forall|i: int| 0 <= i < c.len() implies must_not@[i] == (#[trigger] c[i]).1 by {}
    assert(any_positive(queries@) <==> exists|i: int|
        0 <= i < queries@.len() && (#[trigger] queries@[i]).0 != BooleanOccur::MustNot);
    let n = (should@.len() + must@.len() + must_not@.len()) as int;
    assert forall|i: int| 0 <= i < queries@.len() implies #[trigger] all[n + i] == queries@[i] by {}
    assert forall|i: int| 0 <= i < must_not@.len() implies #[trigger] all[should@.len() + must@.len()
        + i] == (BooleanOccur::MustNot, must_not@[i]) by {}
    assert forall|i: int| 0 <= i < must@.len() implies #[trigger] all[should@.len() + i] == (
        BooleanOccur::Must,
        must@[i],
    ) by {}
    assert forall|i: int| 0 <= i < should@.len() implies #[trigger] all[i] == (
        BooleanOccur::Should,
        should@[i],
    ) by {}
}

} // verus!

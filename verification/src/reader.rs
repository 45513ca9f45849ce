//! Searching an index: what is asked of tantivy, and what is made of its answer.
use crate::analyzer::{analyzer_stages, build_text_analyzer, planned_stages, Stage};
use crate::config::{FullTextIndexMetadata, MetadataView};
use crate::error::{invalid_query, join, joined, unit_result_is, ErrorView, FtIndexError};
use crate::plan_model::{plan, query_can_run, IndexModel};
use crate::planner::{build_query, can_build_query};
use crate::query::{PlanView, QueryPlan, QuerySpec};
use crate::schema::schema_fields;
use crate::score::Score;
use crate::storage::IndexHeader;
use crate::text::same_text;
use crate::writer::{runtime_version, tantivy_version, FullTextIndexWriter, OpenIndex};
use roaring::RoaringTreemap;
use tantivy::schema::Schema;
use vstd::prelude::*;

verus! {

/// roaring's set of 64-bit numbers.
#[verifier::external_type_specification]
#[verifier::external_body]
pub struct ExRoaringTreemap(RoaringTreemap);

/// The numbers that a set holds.
pub uninterp spec fn treemap_values(treemap: RoaringTreemap) -> Set<u64>;

/// The numbers of the set that the bytes write down, or why they write down none.
pub uninterp spec fn decoded_treemap(bytes: Seq<u8>) -> Result<Set<u64>, Seq<char>>;

/// `RoaringTreemap::deserialize_from`: the set that the bytes write down, or its error as it is
/// displayed. Both depend on the bytes alone.
#[verifier::external_body]
fn decode_treemap(bytes: &[u8]) -> (r: Result<RoaringTreemap, String>)
    ensures
        match r {
            Ok(treemap) => decoded_treemap(bytes@) == Ok::<Set<u64>, Seq<char>>(
                treemap_values(treemap),
            ),
            Err(message) => decoded_treemap(bytes@) == Err::<Set<u64>, Seq<char>>(message@),
        },
{
    RoaringTreemap::deserialize_from(bytes).map_err(|e| e.to_string())
}

/// `RoaringTreemap::contains`: whether the number is in the set.
#[verifier::external_body]
fn treemap_contains(treemap: &RoaringTreemap, value: u64) -> (r: bool)
    ensures
        r == treemap_values(*treemap).contains(value),
{
    treemap.contains(value)
}

/// What refuses a filter that could not be read, given why.
pub open spec fn filter_problem(message: Seq<char>) -> ErrorView {
    ErrorView::InvalidQuery(joined("invalid RoaringTreemap filter: "@, message, ""@))
}

/// The filter that was read, or the error that refuses it, given why it could not be read.
pub fn checked_filter(decoded: Result<RoaringTreemap, String>) -> (r: Result<
    RoaringTreemap,
    FtIndexError,
>)
    ensures
        match (r, decoded) {
            (Ok(filter), Ok(treemap)) => filter == treemap,
            (Err(e), Err(message)) => e@ == filter_problem(message@),
            _ => false,
        },
{
    match decoded {
        Ok(treemap) => Ok(treemap),
        Err(message) => Err(
            FtIndexError::InvalidQuery(
                join("invalid RoaringTreemap filter: ", message.as_str(), ""),
            ),
        ),
    }
}

/// The set of row ids that the bytes write down.
pub fn decode_roaring_filter(bytes: &[u8]) -> (r: Result<RoaringTreemap, FtIndexError>)
    ensures
        match (r, decoded_treemap(bytes@)) {
            (Ok(filter), Ok(rows)) => treemap_values(filter) == rows,
            (Err(e), Err(message)) => e@ == filter_problem(message),
            _ => false,
        },
{
    checked_filter(decode_treemap(bytes))
}

/// What refuses an index that another version of tantivy wrote, given the version in use.
pub open spec fn version_problem(written: Seq<char>, runtime: Seq<char>) -> Option<ErrorView> {
    if written == runtime {
        None
    } else {
        Some(
            ErrorView::InvalidStorage(
                joined(
                    "unsupported Tantivy index version "@,
                    written,
                    joined(", runtime uses "@, runtime, ""@),
                ),
            ),
        )
    }
}

/// Refuses an index that another version of tantivy wrote.
pub fn validate_tantivy_version(metadata: &FullTextIndexMetadata) -> (r: Result<(), FtIndexError>)
    ensures
        unit_result_is(r, version_problem(metadata@.tantivy_version, runtime_version())),
{
    let runtime = tantivy_version();
    if !same_text(metadata.tantivy_version.as_str(), runtime.as_str()) {
        let tail = join(", runtime uses ", runtime.as_str(), "");
        let message = join(
            "unsupported Tantivy index version ",
            metadata.tantivy_version.as_str(),
            tail.as_str(),
        );
        return Err(FtIndexError::InvalidStorage(message));
    }
    Ok(())
}

/// What a search asks for: the documents that the plan matches and the filter allows, the best
/// `limit` of them.
pub struct SearchRequest {
    pub query: QueryPlan,
    pub limit: usize,
    pub filter: Option<RoaringTreemap>,
}

/// The row ids that a filter allows: all, where there is none.
pub open spec fn allowed_rows(filter: Option<RoaringTreemap>) -> Set<u64> {
    match filter {
        Some(treemap) => treemap_values(treemap),
        None => Set::full(),
    }
}

impl SearchRequest {
    /// Whether the document with this row id may be in the answer.
    pub fn allows(&self, row_id: u64) -> (r: bool)
        ensures
            r == allowed_rows(self.filter).contains(row_id),
    {
        match &self.filter {
            Some(treemap) => treemap_contains(treemap, row_id),
            None => true,
        }
    }
}

/// The answer to a search: row ids with their scores, best first.
#[derive(Debug, PartialEq, Eq)]
pub struct FullTextSearchResult {
    pub row_ids: Vec<i64>,
    pub scores: Vec<Score>,
}

impl Clone for FullTextSearchResult {
    fn clone(&self) -> (r: Self)
        ensures
            r.row_ids@ == self.row_ids@,
            r.scores@ == self.scores@,
    {
        FullTextSearchResult { row_ids: self.row_ids.clone(), scores: self.scores.clone() }
    }
}

/// The row id that a stored number stands for: the number itself, or its two's complement past the
/// largest row id.
pub open spec fn row_id_of(stored: u64) -> int {
    if stored <= i64::MAX {
        stored as int
    } else {
        stored - 0x1_0000_0000_0000_0000
    }
}

fn signed_row_id(stored: u64) -> (r: i64)
    ensures
        r == row_id_of(stored),
{
    if stored <= 0x7fff_ffff_ffff_ffff {
        stored as i64
    } else {
        let below: u64 = 0xffff_ffff_ffff_ffff - stored;
        -1 - (below as i64)
    }
}

/// A row id comes back as it was stored.
pub proof fn row_id_comes_back(row_id: i64)
    requires
        row_id >= 0,
    ensures
        row_id_of(row_id as u64) == row_id,
{
}

/// The answer that is made of the documents that were found, each with its score and the number
/// that is stored as its row id.
pub fn collect_results(found: &Vec<(Score, u64)>) -> (r: FullTextSearchResult)
    ensures
        r.row_ids@.len() == found@.len(),
        r.scores@.len() == found@.len(),
        forall|i: int|
            0 <= i < found@.len() ==> #[trigger] r.row_ids@[i] == row_id_of(found@[i].1)
                && r.scores@[i] == found@[i].0,
{
    let mut row_ids: Vec<i64> = Vec::new();
    let mut scores: Vec<Score> = Vec::new();
    let mut i: usize = 0;
    while i < found.len()
        invariant
            i <= found.len(),
            row_ids@.len() == i,
            scores@.len() == i,
            forall|k: int|
                0 <= k < i ==> #[trigger] row_ids@[k] == row_id_of(found@[k].1) && scores@[k]
                    == found@[k].0,
        decreases found.len() - i,
    {
        row_ids.push(signed_row_id(found[i].1));
        scores.push(found[i].0);
        i = i + 1;
    }
    FullTextSearchResult { row_ids, scores }
}

/// An index that can be searched.
pub struct FullTextIndexReader {
    metadata: FullTextIndexMetadata,
    index: OpenIndex,
}

/// What a search gives: the plan of the query, or the error that comes first.
pub open spec fn searched(
    index: IndexModel,
    query: Result<QuerySpec, ErrorView>,
    limit: usize,
) -> Result<PlanView, ErrorView> {
    if limit == 0 {
        Err(ErrorView::InvalidQuery("search limit must be positive"@))
    } else {
        match query {
            Err(e) => Err(e),
            Ok(q) => plan(index, q),
        }
    }
}

/// The query that was read, or the error that refused it.
pub open spec fn read_query(query: Result<QuerySpec, FtIndexError>) -> Result<
    QuerySpec,
    ErrorView,
> {
    match query {
        Ok(q) => Ok(q),
        Err(e) => Err(e@),
    }
}

impl FullTextIndexReader {
    /// What decides how a query is planned.
    pub closed spec fn model(&self) -> IndexModel {
        IndexModel {
            config: self.metadata@.config,
            fields: schema_fields(self.index.schema),
            stages: analyzer_stages(self.index.analyzer),
        }
    }

    /// What the index says of itself.
    pub closed spec fn metadata_view(&self) -> MetadataView {
        self.metadata@
    }

    /// Whether the analyzer of the index is the one that its configuration calls for.
    pub open spec fn well_formed(&self) -> bool {
        &&& self.model().config == self.metadata_view().config
        &&& Ok::<Seq<Stage>, ErrorView>(self.model().stages) == planned_stages(
            self.model().config.tokenizer,
        )
    }

    /// Whether a search can be made: unless it is refused before, the analyzer can be run on the
    /// texts of the query.
    pub open spec fn search_can_run(
        &self,
        query: Result<QuerySpec, FtIndexError>,
        limit: usize,
    ) -> bool {
        limit > 0 && query is Ok ==> query_can_run(self.model(), query->Ok_0)
    }

    /// An index with this header, whose files hold this schema. It is refused if another version
    /// of tantivy wrote it, or if it can have no analyzer.
    pub fn open(header: IndexHeader, schema: Schema) -> (r: Result<Self, FtIndexError>)
        ensures
            match r {
                Ok(reader) => {
                    &&& version_problem(
                        header.metadata@.tantivy_version,
                        runtime_version(),
                    ) is None
                    &&& reader.well_formed()
                    &&& reader.metadata_view() == header.metadata@
                    &&& reader.model().fields == schema_fields(schema)
                },
                Err(e) => match version_problem(
                    header.metadata@.tantivy_version,
                    runtime_version(),
                ) {
                    Some(p) => e@ == p,
                    None => planned_stages(header.metadata@.config.tokenizer) == Err::<
                        Seq<Stage>,
                        ErrorView,
                    >(e@),
                },
            },
    {
        match validate_tantivy_version(&header.metadata) {
            Ok(_) => {},
            Err(e) => {
                return Err(e);
            },
        }
        match build_text_analyzer(&header.metadata.config.tokenizer) {
            Ok(analyzer) => Ok(
                FullTextIndexReader {
                    metadata: header.metadata,
                    index: OpenIndex { schema, analyzer },
                },
            ),
            Err(e) => Err(e),
        }
    }

    /// What the index says of itself.
    pub fn metadata(&self) -> (r: &FullTextIndexMetadata)
        ensures
            r@ == self.metadata_view(),
    {
        &self.metadata
    }

    /// The schema and the analyzer of the index.
    pub fn index(&self) -> (r: &OpenIndex)
        ensures
            schema_fields(r.schema) == self.model().fields,
            analyzer_stages(r.analyzer) == self.model().stages,
    {
        &self.index
    }

    /// A search for the best `limit` documents that match the query, which may have been refused
    /// when it was read.
    pub fn search(&self, query: Result<QuerySpec, FtIndexError>, limit: usize) -> (r: Result<
        SearchRequest,
        FtIndexError,
    >)
        requires
            self.well_formed(),
            self.search_can_run(query, limit),
        ensures
            match (r, searched(self.model(), read_query(query), limit)) {
                (Ok(request), Ok(p)) => {
                    &&& request.query@ == p
                    &&& request.limit == limit
                    &&& allowed_rows(request.filter) == Set::<u64>::full()
                },
                (Err(e), Err(p)) => e@ == p,
                _ => false,
            },
    {
        self.search_with_filter(query, limit, None)
    }

    /// A search for the best `limit` documents that match the query among those whose row ids the
    /// bytes write down.
    pub fn search_with_roaring_filter(
        &self,
        query: Result<QuerySpec, FtIndexError>,
        limit: usize,
        roaring_filter_bytes: &[u8],
    ) -> (r: Result<SearchRequest, FtIndexError>)
        requires
            self.well_formed(),
            decoded_treemap(roaring_filter_bytes@) is Ok ==> self.search_can_run(query, limit),
        ensures
            match (
                r,
                decoded_treemap(roaring_filter_bytes@),
                searched(self.model(), read_query(query), limit),
            ) {
                (Ok(request), Ok(rows), Ok(p)) => {
                    &&& request.query@ == p
                    &&& request.limit == limit
                    &&& allowed_rows(request.filter) == rows
                },
                (Err(e), Err(message), _) => e@ == filter_problem(message),
                (Err(e), Ok(_), Err(p)) => e@ == p,
                _ => false,
            },
    {
        match decode_roaring_filter(roaring_filter_bytes) {
            Ok(filter) => self.search_with_filter(query, limit, Some(filter)),
            Err(e) => Err(e),
        }
    }

    /// A search for the best `limit` documents that match the query and that the filter allows.
    pub fn search_with_filter(
        &self,
        query: Result<QuerySpec, FtIndexError>,
        limit: usize,
        filter: Option<RoaringTreemap>,
    ) -> (r: Result<SearchRequest, FtIndexError>)
        requires
            self.well_formed(),
            self.search_can_run(query, limit),
        ensures
            match (r, searched(self.model(), read_query(query), limit)) {
                (Ok(request), Ok(p)) => {
                    &&& request.query@ == p
                    &&& request.limit == limit
                    &&& request.filter == filter
                },
                (Err(e), Err(p)) => e@ == p,
                _ => false,
            },
    {
        if limit == 0 {
            return Err(invalid_query("search limit must be positive"));
        }
        let query = match query {
            Ok(query) => query,
            Err(e) => {
                return Err(e);
            },
        };
        match build_query(&self.index, &self.metadata.config, &query) {
            Ok(query) => Ok(SearchRequest { query, limit, filter }),
            Err(e) => Err(e),
        }
    }

    /// Whether a search can be made.
    pub fn can_search(&self, query: &Result<QuerySpec, FtIndexError>, limit: usize) -> (r: bool)
        requires
            self.well_formed(),
        ensures
            r == self.search_can_run(*query, limit),
    {
        if limit == 0 {
            return true;
        }
        match query {
            Ok(query) => can_build_query(&self.index, &self.metadata.config, query),
            Err(_) => true,
        }
    }

    /// `search`, or nothing if the search cannot be made.
    pub fn try_search(&self, query: Result<QuerySpec, FtIndexError>, limit: usize) -> (r: Option<
        Result<SearchRequest, FtIndexError>,
    >)
        requires
            self.well_formed(),
        ensures
            r is Some == self.search_can_run(query, limit),
            r matches Some(answer) ==> match (
                answer,
                searched(self.model(), read_query(query), limit),
            ) {
                (Ok(request), Ok(p)) => {
                    &&& request.query@ == p
                    &&& request.limit == limit
                    &&& allowed_rows(request.filter) == Set::<u64>::full()
                },
                (Err(e), Err(p)) => e@ == p,
                _ => false,
            },
    {
        if self.can_search(&query, limit) {
            Some(self.search(query, limit))
        } else {
            None
        }
    }

    /// `search_with_roaring_filter`, or nothing if the bytes write down row ids and the search
    /// cannot be made.
    pub fn try_search_with_roaring_filter(
        &self,
        query: Result<QuerySpec, FtIndexError>,
        limit: usize,
        roaring_filter_bytes: &[u8],
    ) -> (r: Option<Result<SearchRequest, FtIndexError>>)
        requires
            self.well_formed(),
        ensures
            r is Some == (decoded_treemap(roaring_filter_bytes@) is Ok ==> self.search_can_run(
                query,
                limit,
            )),
            r matches Some(answer) ==> match (
                answer,
                decoded_treemap(roaring_filter_bytes@),
                searched(self.model(), read_query(query), limit),
            ) {
                (Ok(request), Ok(rows), Ok(p)) => {
                    &&& request.query@ == p
                    &&& request.limit == limit
                    &&& allowed_rows(request.filter) == rows
                },
                (Err(e), Err(message), _) => e@ == filter_problem(message),
                (Err(e), Ok(_), Err(p)) => e@ == p,
                _ => false,
            },
    {
        if self.can_search(&query, limit) {
            return Some(self.search_with_roaring_filter(query, limit, roaring_filter_bytes));
        }
        match decode_roaring_filter(roaring_filter_bytes) {
            Ok(_) => None,
            Err(e) => Some(Err(e)),
        }
    }
}

/// An index that a writer wrote is accepted by a reader: it has the version in use, and an analyzer
/// with the writer's stages.
pub proof fn written_index_opens(writer: FullTextIndexWriter, metadata: MetadataView)
    requires
        writer.well_formed(),
        metadata == (MetadataView {
            config: writer.config@,
            document_count: writer.document_count,
            tantivy_version: runtime_version(),
        }),
    ensures
        version_problem(metadata.tantivy_version, runtime_version()) is None,
        planned_stages(metadata.config.tokenizer) is Ok,
        writer.state matches Some(index) ==> planned_stages(metadata.config.tokenizer) == Ok::<
            Seq<Stage>,
            ErrorView,
        >(analyzer_stages(index.analyzer)),
{
}

/// A search without a limit is refused before anything else, and a query that could not be read with
/// its own error. Every other search has the plan of its query, whatever its limit.
pub proof fn searches_have_the_plan_of_their_query(
    index: IndexModel,
    query: Result<QuerySpec, ErrorView>,
    limit: usize,
)
    ensures
        limit == 0 ==> searched(index, query, limit) == Err::<PlanView, ErrorView>(
            ErrorView::InvalidQuery("search limit must be positive"@),
        ),
        limit > 0 && query is Err ==> searched(index, query, limit) == Err::<PlanView, ErrorView>(
            query->Err_0,
        ),
        limit > 0 && query is Ok ==> searched(index, query, limit) == plan(index, query->Ok_0),
{
}

/// The row id of a stored number is a 64-bit number with a sign that differs from it by nothing or by
/// two to the power of 64, and no two stored numbers have the same row id.
pub proof fn row_ids_are_told_apart(a: u64, b: u64)
    ensures
        i64::MIN <= row_id_of(a) <= i64::MAX,
        row_id_of(a) == a || row_id_of(a) + 0x1_0000_0000_0000_0000 == a,
        row_id_of(a) == row_id_of(b) ==> a == b,
{
}

/// An index is accepted exactly if the version of tantivy that wrote it is the one in use.
pub proof fn only_the_version_in_use_is_accepted(written: Seq<char>, runtime: Seq<char>)
    ensures
        version_problem(written, runtime) is None <==> written == runtime,
{
}

/// A filter allows the row ids that it holds, and no filter allows all.
pub proof fn filters_allow_what_they_hold(treemap: RoaringTreemap, row_id: u64)
    ensures
        allowed_rows(Some(treemap)).contains(row_id) <==> treemap_values(treemap).contains(row_id),
        allowed_rows(None).contains(row_id),
{
}

/// A query that was read is searched for as it was read.
pub proof fn read_queries_are_searched_for(
    index: IndexModel,
    query: Result<QuerySpec, FtIndexError>,
    limit: usize,
)
    requires
        limit > 0,
    ensures
        query matches Ok(q) ==> searched(index, read_query(query), limit) == plan(index, q),
        query matches Err(e) ==> searched(index, read_query(query), limit) == Err::<
            PlanView,
            ErrorView,
        >(e@),
{
}

/// What refuses an index names both versions, and what refuses a filter passes on why.
pub proof fn refusals_say_why(written: Seq<char>, runtime: Seq<char>, message: Seq<char>)
    ensures
        written != runtime ==> version_problem(written, runtime) == Some(
            ErrorView::InvalidStorage(
                "unsupported Tantivy index version "@ + written + (", runtime uses "@ + runtime),
            ),
        ),
        filter_problem(message) == ErrorView::InvalidQuery(
            "invalid RoaringTreemap filter: "@ + message,
        ),
{
    reveal_strlit("");
    assert(joined(", runtime uses "@, runtime, ""@) =~= ", runtime uses "@ + runtime);
    assert(joined("invalid RoaringTreemap filter: "@, message, ""@)
        =~= "invalid RoaringTreemap filter: "@ + message);
}

} // verus!

use std::fmt;
use std::sync::Arc;

use paimon_ftindex_core::analyzer::tokenizer_name;
use paimon_ftindex_core::automaton::{AutomatonState, PrefixedDfaAutomaton};
use paimon_ftindex_core::config::FullTextIndexConfig;
use paimon_ftindex_core::docset::{matches_doc, DocCheck, ExpandedDocs, SortedDocSet};
use paimon_ftindex_core::error::FtIndexError;
use paimon_ftindex_core::query::{MatchOperator, QueryPlan, QuerySpec};
use paimon_ftindex_core::reader::{
    collect_results, FullTextIndexReader, FullTextSearchResult, SearchRequest,
};
use paimon_ftindex_core::score::Score as ScoreBits;
use paimon_ftindex_core::storage::IndexFile;
use paimon_ftindex_core::tokenizer::{TokenizerConfig, TokenizerKind};
use paimon_ftindex_core::writer::FullTextIndexWriter;
use roaring::RoaringTreemap;
use tantivy::collector::{FilterCollector, TopDocs};
use tantivy::query::{
    BooleanQuery, BoostQuery, ConstScorer, EmptyQuery, EnableScoring, Explanation, Query,
    QueryParser, Scorer, TermQuery, Weight,
};
use tantivy::schema::{Field, IndexRecordOption};
use tantivy::{DocAddress, DocId, DocSet, Index, IndexWriter, Score, SegmentReader, Term};
use tantivy_fst::Automaton;

// Running a plan.

fn run_plan(index: &Index, plan: &QueryPlan) -> Box<dyn Query> {
    match plan {
        QueryPlan::Empty => Box::new(EmptyQuery),
        QueryPlan::Term { field, token } => Box::new(TermQuery::new(
            Term::from_field_text(Field::from_field_id(*field), token),
            IndexRecordOption::WithFreqs,
        )),
        QueryPlan::Fuzzy { field, token, distance, prefix, max_expansions } => {
            Box::new(FuzzyQuery {
                field: Field::from_field_id(*field),
                token: token.clone(),
                distance: *distance,
                prefix: prefix.clone(),
                max_expansions: *max_expansions,
            })
        }
        QueryPlan::Phrase { field, query_text } => {
            QueryParser::for_index(index, vec![Field::from_field_id(*field)])
                .parse_query(query_text)
                .unwrap()
        }
        QueryPlan::Boolean(clauses) => Box::new(BooleanQuery::new(
            clauses
                .iter()
                .map(|(occur, child)| (*occur, run_plan(index, child)))
                .collect(),
        )),
        QueryPlan::Boosted { query, boost } => {
            Box::new(BoostQuery::new(run_plan(index, query), f32::from_bits(boost.bits)))
        }
        QueryPlan::Demote { positive, negative, negative_boost } => Box::new(DemoteQuery {
            positive: run_plan(index, positive),
            negative: run_plan(index, negative),
            negative_boost: *negative_boost,
        }),
    }
}

struct DemoteQuery {
    positive: Box<dyn Query>,
    negative: Box<dyn Query>,
    negative_boost: ScoreBits,
}

impl Clone for DemoteQuery {
    fn clone(&self) -> Self {
        DemoteQuery {
            positive: self.positive.box_clone(),
            negative: self.negative.box_clone(),
            negative_boost: self.negative_boost,
        }
    }
}

impl fmt::Debug for DemoteQuery {
    fn fmt(&self, f: &mut fmt::Formatter<'_>) -> fmt::Result {
        f.write_str("Demote")
    }
}

impl Query for DemoteQuery {
    fn weight(&self, scoring: EnableScoring<'_>) -> tantivy::Result<Box<dyn Weight>> {
        let positive = self.positive.weight(scoring)?;
        if !scoring.is_scoring_enabled() {
            return Ok(positive);
        }
        let negative = self.negative.weight(EnableScoring::Disabled {
            schema: scoring.schema(),
            searcher_opt: scoring.searcher(),
        })?;
        Ok(Box::new(DemoteWeight { positive, negative, negative_boost: self.negative_boost }))
    }
}

struct DemoteWeight {
    positive: Box<dyn Weight>,
    negative: Box<dyn Weight>,
    negative_boost: ScoreBits,
}

impl Weight for DemoteWeight {
    fn scorer(&self, reader: &SegmentReader, boost: Score) -> tantivy::Result<Box<dyn Scorer>> {
        Ok(Box::new(DemoteScorer {
            positive: self.positive.scorer(reader, boost)?,
            negative: self.negative.scorer(reader, 1.0)?,
            negative_boost: self.negative_boost,
        }))
    }

    fn explain(&self, reader: &SegmentReader, doc: DocId) -> tantivy::Result<Explanation> {
        self.positive.explain(reader, doc)
    }
}

struct DemoteScorer {
    positive: Box<dyn Scorer>,
    negative: Box<dyn Scorer>,
    negative_boost: ScoreBits,
}

impl DocSet for DemoteScorer {
    fn advance(&mut self) -> DocId {
        self.positive.advance()
    }

    fn doc(&self) -> DocId {
        self.positive.doc()
    }

    fn size_hint(&self) -> u32 {
        self.positive.size_hint()
    }
}

impl Scorer for DemoteScorer {
    fn score(&mut self) -> Score {
        let score = self.positive.score();
        let doc = self.positive.doc();
        let matched = match matches_doc(self.negative.doc(), doc) {
            DocCheck::Match => true,
            DocCheck::Mismatch => false,
            DocCheck::Seek => self.negative.seek(doc) == doc,
        };
        if matched {
            score * f32::from_bits(self.negative_boost.bits)
        } else {
            score
        }
    }
}

#[derive(Clone)]
struct FuzzyQuery {
    field: Field,
    token: String,
    distance: u8,
    prefix: String,
    max_expansions: usize,
}

impl fmt::Debug for FuzzyQuery {
    fn fmt(&self, f: &mut fmt::Formatter<'_>) -> fmt::Result {
        f.write_str("Fuzzy")
    }
}

impl Query for FuzzyQuery {
    fn weight(&self, _scoring: EnableScoring<'_>) -> tantivy::Result<Box<dyn Weight>> {
        Ok(Box::new(FuzzyWeight {
            field: self.field,
            automaton: TermAutomaton(PrefixedDfaAutomaton::for_token(
                &self.token,
                self.distance,
                &self.prefix,
            )),
            max_expansions: self.max_expansions,
        }))
    }
}

struct TermAutomaton(PrefixedDfaAutomaton);

impl Automaton for TermAutomaton {
    type State = AutomatonState;

    fn start(&self) -> AutomatonState {
        self.0.start()
    }

    fn is_match(&self, state: &AutomatonState) -> bool {
        self.0.is_match(state)
    }

    fn can_match(&self, state: &AutomatonState) -> bool {
        self.0.can_match(state)
    }

    fn accept(&self, state: &AutomatonState, byte: u8) -> AutomatonState {
        self.0.accept(state, byte)
    }
}

struct FuzzyWeight {
    field: Field,
    automaton: TermAutomaton,
    max_expansions: usize,
}

impl Weight for FuzzyWeight {
    fn scorer(&self, reader: &SegmentReader, boost: Score) -> tantivy::Result<Box<dyn Scorer>> {
        let inverted_index = reader.inverted_index(self.field)?;
        let mut stream = inverted_index.terms().search(&self.automaton).into_stream()?;
        let mut docs = ExpandedDocs::new(self.max_expansions);
        while docs.has_room() && stream.advance() {
            docs.begin_token();
            let mut postings = inverted_index
                .read_block_postings_from_terminfo(stream.value(), IndexRecordOption::Basic)?;
            while docs.add_block(postings.docs()) {
                postings.advance();
            }
        }
        Ok(Box::new(ConstScorer::new(FoundDocs(docs.finish()), boost)))
    }

    fn explain(&self, _reader: &SegmentReader, _doc: DocId) -> tantivy::Result<Explanation> {
        Ok(Explanation::new("fuzzy", 1.0))
    }
}

struct FoundDocs(SortedDocSet);

impl DocSet for FoundDocs {
    fn advance(&mut self) -> DocId {
        self.0.advance()
    }

    fn seek(&mut self, target: DocId) -> DocId {
        self.0.seek(target)
    }

    fn doc(&self) -> DocId {
        self.0.doc()
    }

    fn size_hint(&self) -> u32 {
        self.0.size_hint()
    }
}

// An index in memory.

struct Writer {
    rules: FullTextIndexWriter,
    index: Index,
    inner: IndexWriter,
}

impl Writer {
    fn new(config: FullTextIndexConfig) -> Writer {
        let rules = FullTextIndexWriter::new(config).unwrap();
        let open = rules.state.as_ref().unwrap();
        let index = Index::create_in_ram(open.schema.clone());
        index
            .tokenizers()
            .register(tokenizer_name(&rules.config.tokenizer), open.analyzer.clone());
        let inner = index.writer_with_num_threads(1, 50_000_000).unwrap();
        Writer { rules, index, inner }
    }

    fn add_document(&mut self, row_id: i64, text: &str) {
        let document = self.rules.add_document(row_id, text).unwrap();
        self.inner.add_document(document).unwrap();
        self.rules.document_added();
    }

    fn add_document_fields(&mut self, row_id: i64, fields: &[(&str, &str)]) {
        let fields = fields.iter().map(|(n, t)| (n.to_string(), t.to_string())).collect();
        let document = self.rules.add_document_fields(row_id, &fields).unwrap();
        self.inner.add_document(document).unwrap();
        self.rules.document_added();
    }

    fn write(mut self) -> Reader {
        assert!(self.rules.write().is_ok());
        self.inner.commit().unwrap();
        let files = vec![IndexFile { name: "meta.json".to_string(), length: 7 }];
        let header = self.rules.archive_header(&files).unwrap();
        let rules = FullTextIndexReader::open(header, self.index.schema()).unwrap();
        Reader { rules, index: self.index }
    }
}

struct Reader {
    rules: FullTextIndexReader,
    index: Index,
}

impl Reader {
    fn search(&self, query: QuerySpec, limit: usize) -> FullTextSearchResult {
        self.run(self.rules.search(Ok(query), limit).unwrap())
    }

    fn search_with_roaring_filter(
        &self,
        query: QuerySpec,
        limit: usize,
        filter: &[u8],
    ) -> Result<FullTextSearchResult, FtIndexError> {
        let request = self.rules.search_with_roaring_filter(Ok(query), limit, filter)?;
        Ok(self.run(request))
    }

    fn run(&self, request: SearchRequest) -> FullTextSearchResult {
        let request = Arc::new(request);
        let searcher = self.index.reader().unwrap().searcher();
        let query = run_plan(&self.index, &request.query);
        let top_docs = TopDocs::with_limit(request.limit).order_by_score();
        let allows = move |row_id: u64| request.allows(row_id);
        let collector = FilterCollector::new("row_id".to_string(), allows, top_docs);
        let found: Vec<(Score, DocAddress)> = searcher.search(&query, &collector).unwrap();
        let mut rows = Vec::new();
        for (score, address) in found {
            let column = searcher
                .segment_reader(address.segment_ord)
                .fast_fields()
                .u64("row_id")
                .unwrap()
                .first_or_default_col(0);
            rows.push((ScoreBits { bits: score.to_bits() }, column.get_val(address.doc_id)));
        }
        collect_results(&rows)
    }
}

fn match_with(terms: &str, operator: MatchOperator, fuzziness: Option<u8>) -> QuerySpec {
    QuerySpec::Match {
        column: Some("text".to_string()),
        terms: terms.to_string(),
        operator,
        boost: ScoreBits { bits: 1.0f32.to_bits() },
        fuzziness,
        max_expansions: 50,
        prefix_length: 0,
    }
}

fn match_query(terms: &str) -> QuerySpec {
    match_with(terms, MatchOperator::Or, Some(0))
}

fn phrase(terms: &str) -> QuerySpec {
    QuerySpec::MatchPhrase { column: Some("text".to_string()), terms: terms.to_string(), slop: 0 }
}

fn build_index() -> Reader {
    let mut writer = Writer::new(FullTextIndexConfig::new());
    writer.add_document(10, "Apache Paimon supports full text search");
    writer.add_document(11, "Tantivy is a Rust search engine");
    writer.add_document(12, "Paimon tables can use indexes");
    writer.write()
}

fn filter_of(rows: &[u64]) -> Vec<u8> {
    let mut allowed = RoaringTreemap::new();
    for row in rows {
        allowed.insert(*row);
    }
    let mut bytes = Vec::new();
    allowed.serialize_into(&mut bytes).unwrap();
    bytes
}

#[test]
fn match_query_round_trip() {
    let reader = build_index();
    let result = reader.search(match_query("paimon"), 10);

    assert_eq!(reader.rules.metadata().document_count, 3);
    assert_eq!(result.row_ids.len(), 2);
    assert!(result.row_ids.contains(&10));
    assert!(result.row_ids.contains(&12));
    assert_eq!(result.scores.len(), 2);
}

#[test]
fn match_query_and_operator_filters_terms() {
    let reader = build_index();
    let query = match_with("paimon indexes", MatchOperator::And, Some(0));
    let result = reader.search(query, 10);

    assert_eq!(result.row_ids, vec![12]);
}

#[test]
fn search_with_roaring_filter_limits_allowed_row_ids_before_top_docs() {
    let reader = build_index();
    let unfiltered_top = reader.search(match_query("paimon"), 1).row_ids[0];
    let allowed_id = if unfiltered_top == 10 { 12 } else { 10 };

    let filter_bytes = filter_of(&[allowed_id as u64]);
    let result =
        reader.search_with_roaring_filter(match_query("paimon"), 1, &filter_bytes).unwrap();

    assert_eq!(result.row_ids, vec![allowed_id]);
    assert_eq!(result.scores.len(), 1);
}

#[test]
fn search_with_empty_roaring_filter_returns_empty_results() {
    let reader = build_index();
    let filter_bytes = filter_of(&[]);
    let result =
        reader.search_with_roaring_filter(match_query("paimon"), 10, &filter_bytes).unwrap();

    assert!(result.row_ids.is_empty());
    assert!(result.scores.is_empty());
}

#[test]
fn search_with_roaring_filter_supports_64_bit_row_ids() {
    let allowed_id = (1i64 << 33) + 17;
    let mut writer = Writer::new(FullTextIndexConfig::new());
    writer.add_document(1, "apache paimon");
    writer.add_document(allowed_id, "paimon filtered row");
    let reader = writer.write();

    let filter_bytes = filter_of(&[allowed_id as u64]);
    let result =
        reader.search_with_roaring_filter(match_query("paimon"), 10, &filter_bytes).unwrap();

    assert_eq!(result.row_ids, vec![allowed_id]);
}

#[test]
fn search_rejects_invalid_roaring_filter_bytes() {
    let reader = build_index();
    match reader.search_with_roaring_filter(match_query("paimon"), 10, b"not roaring") {
        Err(FtIndexError::InvalidQuery(message)) => {
            assert!(message.contains("invalid RoaringTreemap filter"));
            assert!(message.len() > "invalid RoaringTreemap filter: ".len());
        }
        _ => panic!("invalid filter bytes should fail"),
    }
}

#[test]
fn phrase_query_uses_positions() {
    let reader = build_index();
    let result = reader.search(phrase("full text"), 10);

    assert_eq!(result.row_ids, vec![10]);
}

#[test]
fn phrase_query_does_not_match_words_apart() {
    let reader = build_index();
    assert!(reader.search(phrase("text full"), 10).row_ids.is_empty());
    let query = QuerySpec::MatchPhrase {
        column: None,
        terms: "supports text".to_string(),
        slop: 1,
    };
    assert_eq!(reader.search(query, 10).row_ids, vec![10]);
}

#[test]
fn jieba_tokenizer_searches_chinese_terms() {
    let config = FullTextIndexConfig::new().tokenizer(TokenizerConfig {
        tokenizer: TokenizerKind::Jieba,
        ..TokenizerConfig::default()
    });
    let mut writer = Writer::new(config);
    writer.add_document(20, "中华人民共和国人民大会堂");
    writer.add_document(21, "北京大学支持全文检索");
    let reader = writer.write();
    let result = reader.search(match_query("中华"), 10);

    assert_eq!(result.row_ids, vec![20]);
}

#[test]
fn jieba_tokenizer_supports_chinese_phrase_queries() {
    let config = FullTextIndexConfig::new().tokenizer(TokenizerConfig {
        tokenizer: TokenizerKind::Jieba,
        jieba_ordinal_position: true,
        ..TokenizerConfig::default()
    });
    let mut writer = Writer::new(config);
    writer.add_document(30, "北京大学支持全文检索");
    writer.add_document(31, "北京的大学很多");
    let reader = writer.write();
    let result = reader.search(phrase("北京大学"), 10);

    assert_eq!(result.row_ids, vec![30]);
}

#[test]
fn boost_query_requires_positive_match() {
    let mut writer = Writer::new(FullTextIndexConfig::new());
    writer.add_document(1, "apache paimon");
    writer.add_document(2, "tantivy only");
    let reader = writer.write();
    let query = QuerySpec::Boost {
        positive: Box::new(match_query("paimon")),
        negative: Box::new(match_query("tantivy")),
        negative_boost: ScoreBits { bits: 0.5f32.to_bits() },
    };
    let result = reader.search(query, 10);

    assert_eq!(result.row_ids, vec![1]);
}

#[test]
fn boost_query_demotes_negative_matches() {
    let mut writer = Writer::new(FullTextIndexConfig::new());
    writer.add_document(1, "paimon good");
    writer.add_document(2, "paimon bad");
    let reader = writer.write();
    let query = QuerySpec::Boost {
        positive: Box::new(match_query("paimon")),
        negative: Box::new(match_query("bad")),
        negative_boost: ScoreBits { bits: 0.5f32.to_bits() },
    };
    let result = reader.search(query, 10);

    assert_eq!(result.row_ids, vec![1, 2]);
    assert!(f32::from_bits(result.scores[0].bits) > f32::from_bits(result.scores[1].bits));
}

#[test]
fn added_documents_are_not_retained_as_source_strings() {
    let mut writer = Writer::new(FullTextIndexConfig::new());

    for row_id in 0..10_000 {
        writer.add_document(row_id, &format!("document {row_id} with unique source text"));
    }

    // Keep this exhaustive: the writer state must not grow a source-document collection.
    let FullTextIndexWriter {
        config: _,
        state,
        row_id_field: _,
        text_fields: _,
        document_count,
    } = writer.rules;
    assert!(state.is_some());
    assert_eq!(document_count, 10_000);
}

#[test]
fn fuzzy_match_finds_close_tokens() {
    let reader = build_index();
    // One letter is missing, and the word is long enough for an edit distance of its own accord.
    assert_eq!(reader.search(match_with("tantvy", MatchOperator::Or, None), 10).row_ids, vec![11]);
    assert!(reader.search(match_query("tantvy"), 10).row_ids.is_empty());
    let found = reader.search(match_with("paimno", MatchOperator::Or, Some(1)), 10);
    assert_eq!(found.row_ids.len(), 2);
}

#[test]
fn fuzzy_match_keeps_the_prefix() {
    let reader = build_index();
    let query = QuerySpec::Match {
        column: None,
        terms: "vantivy".to_string(),
        operator: MatchOperator::Or,
        boost: ScoreBits { bits: 2.0f32.to_bits() },
        fuzziness: Some(1),
        max_expansions: 50,
        prefix_length: 1,
    };
    assert!(reader.search(query, 10).row_ids.is_empty());
    let found = reader.search(match_with("vantivy", MatchOperator::Or, Some(1)), 10);
    assert_eq!(found.row_ids, vec![11]);
}

#[test]
fn several_fields_are_searched_together() {
    let entries = vec![("text-fields".to_string(), "title,body".to_string())];
    let config = FullTextIndexConfig::from_entries(&entries).unwrap();
    let mut writer = Writer::new(config);
    writer.add_document_fields(17, &[("title", "Apache Paimon"), ("body", "lake storage")]);
    writer.add_document_fields(18, &[("body", "nothing of the kind")]);
    let reader = writer.write();
    let query = QuerySpec::MultiMatch {
        terms: "paimon".to_string(),
        columns: vec!["title".to_string(), "body".to_string()],
        boosts: Vec::new(),
        operator: MatchOperator::Or,
        fuzziness: Some(0),
        max_expansions: 50,
        prefix_length: 0,
    };
    assert_eq!(reader.search(query, 4).row_ids, vec![17]);
    let everywhere = QuerySpec::Match {
        column: None,
        terms: "storage kind".to_string(),
        operator: MatchOperator::Or,
        boost: ScoreBits { bits: 1.0f32.to_bits() },
        fuzziness: Some(0),
        max_expansions: 50,
        prefix_length: 0,
    };
    assert_eq!(reader.search(everywhere, 4).row_ids.len(), 2);
}

#[test]
fn quotes_and_backslashes_stay_inside_a_phrase() {
    let mut writer = Writer::new(FullTextIndexConfig::new());
    writer.add_document(1, "say \"full\" \\ text now");
    writer.add_document(2, "full of text");
    let reader = writer.write();
    assert_eq!(reader.search(phrase("\"full\" \\ text"), 10).row_ids, vec![1]);
    assert_eq!(reader.search(phrase("full text\" OR \"of"), 10).row_ids, Vec::<i64>::new());
}

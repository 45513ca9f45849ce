//! Writing an index: the documents that go into it, and the archive that comes out.
//!
//! The writer holds what decides how documents and archives look. Handing the documents to tantivy
//! and writing bytes is left to its user, who reports back what was done.
use crate::analyzer::{analyzer_stages, build_text_analyzer, planned_stages, Stage};
use crate::config::{
    fields_fit, FullTextIndexConfig, FullTextIndexMetadata, IndexConfigView, MetadataView,
};
use crate::error::{invalid_storage, join, joined, unit_result_is, ErrorView, FtIndexError};
use crate::schema::{
    add_number, add_text, build_schema, document_bytes, document_values, field_id, find_field,
    maps_fields, new_document, planned_field_ids, planned_fields, schema_fields, stored_bytes,
    text_field_map, FieldValue,
};
use crate::storage::{entry_list, length_of_first, place_files, places, IndexFile, IndexHeader};
use crate::text::{contains_text, decimal, decimal_text, same_text, trimmed};
use crate::tokenizer::{clone_entries, config_problem, entry_views};
use tantivy::schema::Schema;
use tantivy::tokenizer::TextAnalyzer;
use tantivy::TantivyDocument;
use vstd::prelude::*;
use vstd::utf8::encode_utf8;

verus! {

/// A document: its row id and the texts of its fields.
#[derive(Debug, PartialEq, Eq)]
pub struct FullTextDocument {
    pub row_id: i64,
    pub fields: Vec<(String, String)>,
}

impl Clone for FullTextDocument {
    fn clone(&self) -> (r: Self)
        ensures
            r.row_id == self.row_id,
            entry_views(r.fields@) == entry_views(self.fields@),
    {
        FullTextDocument { row_id: self.row_id, fields: clone_entries(&self.fields) }
    }
}

/// What an open index is made of: its schema and the analyzer of its texts.
pub struct OpenIndex {
    pub schema: Schema,
    pub analyzer: TextAnalyzer,
}

/// A writer of one index. It keeps no document.
pub struct FullTextIndexWriter {
    pub config: FullTextIndexConfig,
    /// `None` once the archive has been asked for.
    pub state: Option<OpenIndex>,
    pub row_id_field: u32,
    pub text_fields: Vec<(String, u32)>,
    pub document_count: u64,
}

/// What refuses a configuration, if anything: a rule that it breaks, or an analyzer that it cannot
/// have.
pub open spec fn writer_problem(c: IndexConfigView) -> Option<ErrorView> {
    match config_problem(c.tokenizer) {
        Some(e) => Some(e),
        None => match planned_stages(c.tokenizer) {
            Err(e) => Some(e),
            Ok(_) => None,
        },
    }
}

/// What refuses a document's field with this name, if anything.
pub open spec fn field_problem(c: IndexConfigView, name: Seq<char>) -> Option<ErrorView> {
    if trimmed(name).len() == 0 {
        Some(ErrorView::InvalidStorage("document field name must not be empty"@))
    } else if !c.text_fields.contains(name) {
        Some(
            ErrorView::InvalidStorage(
                joined("document field '"@, name, "' is not configured for this index"@),
            ),
        )
    } else {
        None
    }
}

/// What refuses the first `n` fields of a document, if anything: the first field that is refused.
pub open spec fn fields_problem(
    c: IndexConfigView,
    fields: Seq<(Seq<char>, Seq<char>)>,
    n: int,
) -> Option<ErrorView>
    decreases n,
{
    if n <= 0 {
        None
    } else {
        match fields_problem(c, fields, n - 1) {
            Some(e) => Some(e),
            None => field_problem(c, fields[n - 1].0),
        }
    }
}

/// The values of a document: its row id, then its texts in their order, each under the id of its
/// field.
pub open spec fn planned_values(
    c: IndexConfigView,
    row_id: i64,
    fields: Seq<(Seq<char>, Seq<char>)>,
) -> Seq<(u32, FieldValue)> {
    seq![(0u32, FieldValue::Number(row_id as u64))] + fields.map_values(
        |f: (Seq<char>, Seq<char>)|
            ((c.text_fields.index_of(f.0) + 1) as u32, FieldValue::Text(f.1)),
    )
}

/// An upper bound on the bytes that a document with these fields takes: eight for the row id, and
/// for each text its bytes and five more.
pub open spec fn given_bytes(fields: Seq<(Seq<char>, Seq<char>)>) -> nat
    decreases fields.len(),
{
    if fields.len() == 0 {
        8
    } else {
        given_bytes(fields.drop_last()) + 5 + encode_utf8(fields.last().1).len()
    }
}

/// Whether a document holds exactly the row id and the texts that were given, in their order, each
/// text under the id of its field and as it was given.
pub open spec fn holds_what_was_given(
    document: TantivyDocument,
    text_fields: Seq<Seq<char>>,
    row_id: i64,
    fields: Seq<(Seq<char>, Seq<char>)>,
) -> bool {
    &&& document_values(document).len() == fields.len() + 1
    &&& document_values(document)[0] == (0u32, FieldValue::Number(row_id as u64))
    &&& forall|i: int|
        0 <= i < fields.len() ==> #[trigger] document_values(document)[i + 1] == (
            (text_fields.index_of(fields[i].0) + 1) as u32,
            FieldValue::Text(fields[i].1),
        )
}

/// Whether a document can address its fields, as far as none before them is refused: the ids of
/// those that the index has fit in 16 bits.
pub open spec fn fields_addressable(
    c: IndexConfigView,
    fields: Seq<(Seq<char>, Seq<char>)>,
) -> bool {
    forall|i: int|
        0 <= i < fields.len() && fields_problem(c, fields, i) is None && c.text_fields.contains(
            (#[trigger] fields[i]).0,
        ) ==> c.text_fields.index_of(fields[i].0) < u16::MAX
}

/// Refuses a document's field that the index does not have.
pub fn validate_indexed_field(config: &FullTextIndexConfig, field: &str) -> (r: Result<
    (),
    FtIndexError,
>)
    ensures
        unit_result_is(r, field_problem(config@, field@)),
{
    if field.trim().is_empty() {
        return Err(invalid_storage("document field name must not be empty"));
    }
    if contains_text(config.indexed_text_fields(), field) {
        Ok(())
    } else {
        let message = join("document field '", field, "' is not configured for this index");
        Err(FtIndexError::InvalidStorage(message))
    }
}

proof fn texts_take_their_bytes(
    c: IndexConfigView,
    row_id: i64,
    fields: Seq<(Seq<char>, Seq<char>)>,
)
    ensures
        stored_bytes(planned_values(c, row_id, fields)) == given_bytes(fields),
    decreases fields.len(),
{
    let values = planned_values(c, row_id, fields);
    if fields.len() == 0 {
        assert(values.drop_last() =~= Seq::<(u32, FieldValue)>::empty());
        assert(stored_bytes(values.drop_last()) == 0);
    } else {
        texts_take_their_bytes(c, row_id, fields.drop_last());
        assert(values.drop_last() =~= planned_values(c, row_id, fields.drop_last()));
    }
}

proof fn problem_stays(c: IndexConfigView, fields: Seq<(Seq<char>, Seq<char>)>, n: int, m: int)
    requires
        n <= m,
        fields_problem(c, fields, n) is Some,
    ensures
        fields_problem(c, fields, m) == fields_problem(c, fields, n),
    decreases m - n,
{
    if n < m {
        problem_stays(c, fields, n, m - 1);
    }
}

proof fn stored_bytes_grow(values: Seq<(u32, FieldValue)>, n: int)
    requires
        0 <= n <= values.len(),
    ensures
        stored_bytes(values.take(n)) <= stored_bytes(values),
    decreases values.len() - n,
{
    if n < values.len() {
        stored_bytes_grow(values, n + 1);
        assert(values.take(n + 1).drop_last() =~= values.take(n));
    } else {
        assert(values.take(n) =~= values);
    }
}

/// A row id as it is written, a negative one too.
fn row_id_text(row_id: i64) -> (r: String)
    ensures
        r@ == row_id_decimal(row_id),
{
    if row_id >= 0 {
        decimal_text(row_id as u64)
    } else {
        let magnitude: u64 = (-(row_id as i128)) as u64;
        join("-", decimal_text(magnitude).as_str(), "")
    }
}

/// A row id in decimal.
pub open spec fn row_id_decimal(row_id: i64) -> Seq<char> {
    if row_id >= 0 {
        decimal(row_id as nat)
    } else {
        joined("-"@, decimal((-row_id) as nat), ""@)
    }
}

impl FullTextIndexWriter {
    /// Whether the parts of the writer belong together.
    pub open spec fn well_formed(&self) -> bool {
        &&& fields_fit(self.config@)
        &&& writer_problem(self.config@) is None
        &&& self.row_id_field == 0
        &&& maps_fields(self.text_fields@, self.config@.text_fields, planned_fields(self.config@))
        &&& self.state matches Some(index) ==> {
            &&& schema_fields(index.schema) == planned_fields(self.config@)
            &&& Ok::<Seq<Stage>, ErrorView>(analyzer_stages(index.analyzer)) == planned_stages(
                self.config@.tokenizer,
            )
        }
    }

    /// What refuses a document, if anything: that the writer has ended comes before anything else.
    pub open spec fn document_problem(
        &self,
        row_id: i64,
        fields: Seq<(Seq<char>, Seq<char>)>,
    ) -> Option<ErrorView> {
        if self.state is None {
            Some(ErrorView::InvalidStorage("full-text index writer is already finalized"@))
        } else if row_id < 0 {
            Some(
                ErrorView::InvalidStorage(
                    joined("row id must be non-negative, got "@, row_id_decimal(row_id), ""@),
                ),
            )
        } else if self.document_count == u64::MAX {
            Some(ErrorView::InvalidStorage("full-text document count overflow"@))
        } else {
            match fields_problem(self.config@, fields, fields.len() as int) {
                Some(e) => Some(e),
                None => if fields.len() == 0 {
                    Some(
                        ErrorView::InvalidStorage("document must contain at least one text field"@),
                    )
                } else {
                    None
                },
            }
        }
    }

    /// Whether a result is the document, or the error, that the model gives for a row id and
    /// fields. The values of a document are claimed as far as it can address them.
    pub open spec fn document_result_is(
        &self,
        r: Result<TantivyDocument, FtIndexError>,
        row_id: i64,
        fields: Seq<(Seq<char>, Seq<char>)>,
    ) -> bool {
        match (r, self.document_problem(row_id, fields)) {
            (Ok(document), None) => stored_bytes(planned_values(self.config@, row_id, fields))
                <= u32::MAX ==> document_values(document) == planned_values(
                self.config@,
                row_id,
                fields,
            ),
            (Err(e), Some(p)) => e@ == p,
            _ => false,
        }
    }

    /// A writer for an index with this configuration, which can have documents added to it.
    pub fn new(config: FullTextIndexConfig) -> (r: Result<Self, FtIndexError>)
        requires
            fields_fit(config@),
        ensures
            match (r, writer_problem(config@)) {
                (Ok(writer), None) => {
                    &&& writer.well_formed()
                    &&& writer.config@ == config@
                    &&& writer.state is Some
                    &&& writer.document_count == 0
                },
                (Err(e), Some(p)) => e@ == p,
                _ => false,
            },
    {
        match config.validate() {
            Ok(_) => {},
            Err(e) => {
                return Err(e);
            },
        }
        let schema = build_schema(&config);
        let analyzer = match build_text_analyzer(&config.tokenizer) {
            Ok(analyzer) => analyzer,
            Err(e) => {
                return Err(e);
            },
        };
        proof {
            planned_field_ids(config@);
        }
        let row_id_field = match find_field(&schema, config.row_id_field.as_str()) {
            Some(id) => id,
            None => {
                return Err(invalid_storage("missing row_id field"));
            },
        };
        let text_fields = match text_field_map(&schema, &config) {
            Ok(fields) => fields,
            Err(e) => {
                return Err(e);
            },
        };
        Ok(
            FullTextIndexWriter {
                config,
                state: Some(OpenIndex { schema, analyzer }),
                row_id_field,
                text_fields,
                document_count: 0,
            },
        )
    }

    /// The document with this text in the default text field.
    pub fn add_document(&self, row_id: i64, text: &str) -> (r: Result<
        TantivyDocument,
        FtIndexError,
    >)
        requires
            self.well_formed(),
        ensures
            self.document_result_is(
                r,
                row_id,
                seq![
                    (
                        if self.config@.text_fields.len() > 0 {
                            self.config@.text_fields[0]
                        } else {
                            "text"@
                        },
                        text@,
                    ),
                ],
            ),
            r is Ok && 13 + encode_utf8(text@).len() <= u32::MAX ==> {
                &&& document_values(r->Ok_0).len() == 2
                &&& document_values(r->Ok_0)[0] == (0u32, FieldValue::Number(row_id as u64))
                &&& document_values(r->Ok_0)[1] == (1u32, FieldValue::Text(text@))
            },
    {
        let name = self.config.default_text_field().to_owned();
        let fields = vec![(name, text.to_owned())];
        proof {
            let c = self.config@;
            assert(entry_views(fields@) =~= seq![(name@, text@)]);
            if c.text_fields.len() > 0 {
                assert(c.text_fields[0] == name@);
                assert(c.text_fields.index_of(name@) == 0);
            }
            let views = entry_views(fields@);
            assert(views.drop_last() =~= Seq::<(Seq<char>, Seq<char>)>::empty());
            assert(given_bytes(views.drop_last()) == 8);
            assert(given_bytes(views) == 13 + encode_utf8(text@).len());
            accepted_documents(*self, row_id, views);
            assert(views[0] == (name@, text@));
        }
        self.add_document_fields(row_id, &fields)
    }

    /// The document with this row id and these texts. Once it has been handed to the index,
    /// `document_added` counts it.
    pub fn add_document_fields(&self, row_id: i64, fields: &Vec<(String, String)>) -> (r: Result<
        TantivyDocument,
        FtIndexError,
    >)
        requires
            self.well_formed(),
            self.state is Some && row_id >= 0 && self.document_count < u64::MAX
                ==> fields_addressable(self.config@, entry_views(fields@)),
        ensures
            self.document_result_is(r, row_id, entry_views(fields@)),
            r is Ok && given_bytes(entry_views(fields@)) <= u32::MAX ==> holds_what_was_given(
                r->Ok_0,
                self.config@.text_fields,
                row_id,
                entry_views(fields@),
            ),
            r is Ok && given_bytes(entry_views(fields@)) <= u32::MAX ==> forall|i: int|
                0 <= i < fields@.len() ==> (#[trigger] document_values(r->Ok_0)[i + 1]).1
                    == FieldValue::Text(fields@[i].1@),
    {
        proof {
            texts_take_their_bytes(self.config@, row_id, entry_views(fields@));
        }
        if self.state.is_none() {
            return Err(invalid_storage("full-text index writer is already finalized"));
        }
        if row_id < 0 {
            let digits = row_id_text(row_id);
            let message = join("row id must be non-negative, got ", digits.as_str(), "");
            return Err(FtIndexError::InvalidStorage(message));
        }
        if self.document_count == u64::MAX {
            return Err(invalid_storage("full-text document count overflow"));
        }
        let ghost c = self.config@;
        let ghost views = entry_views(fields@);
        let ghost planned = planned_values(c, row_id, views);
        let mut document = new_document();
        proof {
            planned_field_ids(c);
            stored_bytes_grow(planned, 1);
            assert(planned.take(1).drop_last() =~= Seq::<(u32, FieldValue)>::empty());
            assert(stored_bytes(planned.take(1).drop_last()) == 0);
            assert(document_values(document).push((0u32, FieldValue::Number(row_id as u64)))
                =~= planned.take(1));
        }
        add_number(&mut document, self.row_id_field, row_id as u64);
        let mut i: usize = 0;
        while i < fields.len()
            invariant
                i <= fields.len(),
                self.well_formed(),
                c == self.config@,
                views == entry_views(fields@),
                planned == planned_values(c, row_id, views),
                fields_addressable(c, views),
                fields_problem(c, views, i as int) is None,
                document_bytes(document) <= stored_bytes(planned.take(i + 1)),
                stored_bytes(planned) <= u32::MAX ==> document_values(document) == planned.take(
                    i + 1,
                ),
                row_id >= 0,
                self.state is Some,
                self.document_count < u64::MAX,
            decreases fields.len() - i,
        {
            let name = fields[i].0.as_str();
            let text = fields[i].1.as_str();
            assert(views[i as int] == (name@, text@));
            match validate_indexed_field(&self.config, name) {
                Ok(_) => {},
                Err(e) => {
                    proof {
                        assert(fields_problem(c, views, i + 1) == Some(e@));
                        problem_stays(c, views, i + 1, views.len() as int);
                    }
                    return Err(e);
                },
            }
            assert(fields_problem(c, views, i + 1) is None);
            let field: u32 = self.text_field(name);
            proof {
                stored_bytes_grow(planned, i + 2);
                assert(planned[i + 1] == (field, FieldValue::Text(text@)));
                assert(planned.take(i + 2).drop_last() =~= planned.take(i + 1));
                assert(planned.take(i + 2) =~= planned.take(i + 1).push(
                    (field, FieldValue::Text(text@)),
                ));
            }
            add_text(&mut document, field, text);
            i = i + 1;
        }
        if fields.is_empty() {
            return Err(invalid_storage("document must contain at least one text field"));
        }
        assert(planned.take(fields@.len() as int + 1) =~= planned);
        assert forall|i: int| 0 <= i < views.len() implies #[trigger] planned[i + 1] == (
            (c.text_fields.index_of(views[i].0) + 1) as u32,
            FieldValue::Text(views[i].1),
        ) by {}
        assert forall|i: int| 0 <= i < fields@.len() implies (#[trigger] planned[i + 1]).1
            == FieldValue::Text(fields@[i].1@) by {
            assert(views[i] == (fields@[i].0@, fields@[i].1@));
        }
        Ok(document)
    }

    /// The id of the text field that has the name.
    fn text_field(&self, name: &str) -> (r: u32)
        requires
            self.well_formed(),
            self.config@.text_fields.contains(name@),
        ensures
            r == self.config@.text_fields.index_of(name@) + 1,
    {
        let ghost c = self.config@;
        proof {
            planned_field_ids(c);
        }
        let mut i: usize = 0;
        while i < self.text_fields.len()
            invariant
                i <= self.text_fields.len(),
                self.well_formed(),
                c == self.config@,
                forall|k: int|
                    0 <= k < c.text_fields.len() ==> field_id(
                        planned_fields(c),
                        #[trigger] c.text_fields[k],
                    ) == Some((k + 1) as u32),
                forall|k: int| 0 <= k < i ==> c.text_fields[k] != name@,
            decreases self.text_fields.len() - i,
        {
            assert(self.text_fields@[i as int].0@ == c.text_fields[i as int]);
            if same_text(self.text_fields[i].0.as_str(), name) {
                assert(c.text_fields[i as int] == name@);
                assert(c.text_fields.index_of(name@) == i);
                return self.text_fields[i].1;
            }
            i = i + 1;
        }
        proof {
            let k = c.text_fields.index_of(name@);
            assert(c.text_fields[k] == name@);
        }
        0
    }

    /// Counts a document that has been handed to the index.
    pub fn document_added(&mut self)
        requires
            old(self).well_formed(),
            old(self).document_count < u64::MAX,
        ensures
            final(self).well_formed(),
            final(self).document_count == old(self).document_count + 1,
            final(self).config == old(self).config,
            final(self).state == old(self).state,
    {
        self.document_count = self.document_count + 1;
    }

    /// Ends the writer, whether or not the archive can then be written: it gives its index away
    /// once, and every further call is refused.
    pub fn write(&mut self) -> (r: Result<OpenIndex, FtIndexError>)
        requires
            old(self).well_formed(),
        ensures
            final(self).well_formed(),
            final(self).state is None,
            final(self).config == old(self).config,
            final(self).document_count == old(self).document_count,
            match (r, old(self).state) {
                (Ok(index), Some(held)) => index == held,
                (Err(e), None) => e@ == ErrorView::InvalidStorage(
                    "full-text index writer is already finalized"@,
                ),
                _ => false,
            },
    {
        match self.state.take() {
            Some(index) => Ok(index),
            None => Err(invalid_storage("full-text index writer is already finalized")),
        }
    }

    /// The header of the archive that holds these files, one after the other. They are refused
    /// exactly if their length together does not fit in 64 bits.
    pub fn archive_header(&self, files: &Vec<IndexFile>) -> (r: Result<IndexHeader, FtIndexError>)
        ensures
            match r {
                Ok(header) => {
                    &&& length_of_first(files@, files@.len() as int) <= u64::MAX
                    &&& places(entry_list(header.files@), files@)
                    &&& header.metadata@ == MetadataView {
                        config: self.config@,
                        document_count: self.document_count,
                        tantivy_version: runtime_version(),
                    }
                },
                Err(e) => length_of_first(files@, files@.len() as int) > u64::MAX && e@
                    == ErrorView::InvalidStorage("full-text archive size overflow"@),
            },
    {
        let entries = match place_files(files) {
            Ok(entries) => entries,
            Err(e) => {
                return Err(e);
            },
        };
        Ok(
            IndexHeader {
                metadata: FullTextIndexMetadata {
                    config: self.config.clone(),
                    document_count: self.document_count,
                    tantivy_version: tantivy_version(),
                },
                files: entries,
            },
        )
    }
}

/// The version of tantivy that this library runs with.
pub open spec fn runtime_version() -> Seq<char> {
    "tantivy v0.26.2, index_format v7"@
}

/// `tantivy::version`, displayed: the version of the crate and that of its index format.
#[verifier::external_body]
pub(crate) fn tantivy_version() -> (r: String)
    ensures
        r@ == runtime_version(),
{
    tantivy::version().to_string()
}

/// Once its archive has been asked for, a writer refuses every document as one that comes too late,
/// whatever its row id and its fields.
pub proof fn ended_writer_refuses(
    writer: FullTextIndexWriter,
    row_id: i64,
    fields: Seq<(Seq<char>, Seq<char>)>,
)
    requires
        writer.state is None,
    ensures
        writer.document_problem(row_id, fields) == Some(
            ErrorView::InvalidStorage("full-text index writer is already finalized"@),
        ),
{
}

/// A document that names configured fields only, at least one, is accepted by a writer that is open
/// and not full.
pub proof fn configured_fields_are_accepted(
    writer: FullTextIndexWriter,
    row_id: i64,
    fields: Seq<(Seq<char>, Seq<char>)>,
)
    requires
        row_id >= 0,
        writer.state is Some,
        writer.document_count < u64::MAX,
        fields.len() > 0,
        forall|i: int|
            0 <= i < fields.len() ==> trimmed((#[trigger] fields[i]).0).len() > 0
                && writer.config@.text_fields.contains(fields[i].0),
    ensures
        writer.document_problem(row_id, fields) is None,
{
    no_problem(writer.config@, fields, fields.len() as int);
}

proof fn unproblematic_fields(c: IndexConfigView, fields: Seq<(Seq<char>, Seq<char>)>, n: int)
    requires
        0 <= n <= fields.len(),
    ensures
        fields_problem(c, fields, n) is None <==> forall|i: int|
            0 <= i < n ==> trimmed((#[trigger] fields[i]).0).len() > 0 && c.text_fields.contains(
                fields[i].0,
            ),
    decreases n,
{
    if n > 0 {
        unproblematic_fields(c, fields, n - 1);
    }
}

/// A document is accepted exactly if the writer has not ended, the row id is not negative, the
/// documents can still be counted, and the document has at least one field, all of them text fields
/// of the index.
pub proof fn accepted_documents(
    writer: FullTextIndexWriter,
    row_id: i64,
    fields: Seq<(Seq<char>, Seq<char>)>,
)
    ensures
        writer.document_problem(row_id, fields) is None <==> {
            &&& writer.state is Some
            &&& row_id >= 0
            &&& writer.document_count < u64::MAX
            &&& fields.len() > 0
            &&& forall|i: int|
                0 <= i < fields.len() ==> trimmed((#[trigger] fields[i]).0).len() > 0
                    && writer.config@.text_fields.contains(fields[i].0)
        },
{
    unproblematic_fields(writer.config@, fields, fields.len() as int);
}

/// A document that was accepted holds what was given for it: the row id first, then the texts in
/// their order, each under the id of its field and character by character as it was given.
pub proof fn documents_hold_what_was_given(
    writer: FullTextIndexWriter,
    r: Result<TantivyDocument, FtIndexError>,
    row_id: i64,
    fields: Seq<(Seq<char>, Seq<char>)>,
    i: int,
)
    requires
        writer.document_result_is(r, row_id, fields),
        r is Ok,
        given_bytes(fields) <= u32::MAX,
        0 <= i < fields.len(),
    ensures
        row_id >= 0,
        document_values(r->Ok_0).len() == fields.len() + 1,
        document_values(r->Ok_0)[0] == (0u32, FieldValue::Number(row_id as u64)),
        document_values(r->Ok_0)[i + 1].1 == FieldValue::Text(fields[i].1),
        writer.config@.text_fields.len() < u32::MAX ==> {
            let id = document_values(r->Ok_0)[i + 1].0;
            &&& 0 < id <= writer.config@.text_fields.len()
            &&& writer.config@.text_fields[id - 1] == fields[i].0
        },
{
    texts_take_their_bytes(writer.config@, row_id, fields);
    accepted_documents(writer, row_id, fields);
    let texts = writer.config@.text_fields;
    assert(texts.contains(fields[i].0));
    let k = texts.index_of(fields[i].0);
    assert(0 <= k < texts.len() && texts[k] == fields[i].0);
}

proof fn no_problem(c: IndexConfigView, fields: Seq<(Seq<char>, Seq<char>)>, n: int)
    requires
        0 <= n <= fields.len(),
        forall|i: int|
            0 <= i < fields.len() ==> trimmed((#[trigger] fields[i]).0).len() > 0
                && c.text_fields.contains(fields[i].0),
    ensures
        fields_problem(c, fields, n) is None,
    decreases n,
{
    if n > 0 {
        no_problem(c, fields, n - 1);
        assert(field_problem(c, fields[n - 1].0) is None);
    }
}

/// A configuration is accepted exactly if it is valid and has an analyzer.
pub proof fn accepted_configurations(c: IndexConfigView)
    ensures
        writer_problem(c) is None <==> {
            &&& 0 < c.tokenizer.ngram_min_gram <= c.tokenizer.ngram_max_gram
            &&& c.tokenizer.max_token_length > 0
            &&& planned_stages(c.tokenizer) is Ok
        },
{
}

/// A document of at most 65535 fields, none with more than 65530 bytes of text, holds exactly what
/// was given for it.
pub proof fn ordinary_documents_hold_what_was_given(
    writer: FullTextIndexWriter,
    r: Result<TantivyDocument, FtIndexError>,
    row_id: i64,
    fields: Seq<(Seq<char>, Seq<char>)>,
    i: int,
)
    requires
        writer.document_result_is(r, row_id, fields),
        r is Ok,
        fields.len() <= 0xffff,
        forall|k: int| 0 <= k < fields.len() ==> encode_utf8((#[trigger] fields[k]).1).len() <= 65530,
        0 <= i < fields.len(),
    ensures
        document_values(r->Ok_0).len() == fields.len() + 1,
        document_values(r->Ok_0)[0] == (0u32, FieldValue::Number(row_id as u64)),
        document_values(r->Ok_0)[i + 1].1 == FieldValue::Text(fields[i].1),
{
    ordinary_bytes(fields);
    documents_hold_what_was_given(writer, r, row_id, fields, i);
}

proof fn ordinary_bytes(fields: Seq<(Seq<char>, Seq<char>)>)
    requires
        forall|k: int| 0 <= k < fields.len() ==> encode_utf8((#[trigger] fields[k]).1).len() <= 65530,
    ensures
        given_bytes(fields) <= 8 + 65535 * fields.len(),
    decreases fields.len(),
{
    if fields.len() > 0 {
        let before = fields.drop_last();
        assert forall|k: int| 0 <= k < before.len() implies encode_utf8(
            (#[trigger] before[k]).1,
        ).len() <= 65530 by {
            assert(before[k] == fields[k]);
        }
        ordinary_bytes(before);
        assert(fields[fields.len() - 1] == fields.last());
    }
}

/// What refuses a document says what is wrong with it: its row id, or the name of its field.
pub proof fn refused_documents_are_told_why(
    writer: FullTextIndexWriter,
    row_id: i64,
    fields: Seq<(Seq<char>, Seq<char>)>,
)
    requires
        writer.state is Some,
    ensures
        row_id < 0 ==> writer.document_problem(row_id, fields) == Some(
            ErrorView::InvalidStorage(
                "row id must be non-negative, got "@ + ("-"@ + decimal((-row_id) as nat)),
            ),
        ),
        row_id >= 0 && writer.document_count < u64::MAX && fields.len() > 0 && trimmed(
            fields[0].0,
        ).len() > 0 && !writer.config@.text_fields.contains(fields[0].0)
            ==> writer.document_problem(row_id, fields) == Some(
            ErrorView::InvalidStorage(
                "document field '"@ + fields[0].0 + "' is not configured for this index"@,
            ),
        ),
{
    reveal_strlit("");
    assert(row_id < 0 ==> row_id_decimal(row_id) =~= "-"@ + decimal((-row_id) as nat));
    assert(joined("row id must be non-negative, got "@, row_id_decimal(row_id), ""@)
        =~= "row id must be non-negative, got "@ + row_id_decimal(row_id));
    if fields.len() > 0 && field_problem(writer.config@, fields[0].0) is Some {
        assert(fields_problem(writer.config@, fields, 0) is None);
        assert(fields_problem(writer.config@, fields, 1) is Some);
        problem_stays(writer.config@, fields, 1, fields.len() as int);
    }
}

} // verus!

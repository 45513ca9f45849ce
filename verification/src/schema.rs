//! The schema of an index and the documents that go into it.
use crate::analyzer::{registered_name, tokenizer_name};
use crate::config::{fields_fit, is_field_name, FullTextIndexConfig, IndexConfigView};
use crate::error::{join, joined, ErrorView, FtIndexError};
use crate::text::text_views;
use crate::tokenizer::TokenizerKind;
use tantivy::schema::{
    Field, IndexRecordOption, NumericOptions, Schema, SchemaBuilder, TextFieldIndexing, TextOptions,
};
use tantivy::TantivyDocument;
use vstd::prelude::*;
use vstd::utf8::encode_utf8;

verus! {

/// tantivy's schema, the list of an index's fields.
#[verifier::external_type_specification]
#[verifier::external_body]
pub struct ExSchema(Schema);

/// tantivy's builder of a schema.
#[verifier::external_type_specification]
#[verifier::external_body]
pub struct ExSchemaBuilder(SchemaBuilder);

/// tantivy's document, a list of fields and values.
#[verifier::external_type_specification]
#[verifier::external_body]
pub struct ExTantivyDocument(TantivyDocument);

/// What tantivy records of each occurrence of a token. The type is known by its variants, which
/// hold no fields.
#[verifier::external_type_specification]
pub struct ExIndexRecordOption(IndexRecordOption);

/// What a field of a schema holds.
pub enum FieldKind {
    /// An unsigned number that is indexed, stored and kept in a column of its own.
    RowId,
    /// A text that the tokenizer of this name cuts into tokens.
    Text { tokenizer: Seq<char>, record: IndexRecordOption },
    /// Anything else, by its description. This library makes no such field, but may be handed a
    /// schema that has one.
    Other(Seq<char>),
}

/// A field of a schema.
pub struct FieldSpec {
    pub name: Seq<char>,
    pub kind: FieldKind,
}

/// The fields that a builder holds. The id of a field is its place in the list.
pub uninterp spec fn builder_fields(builder: SchemaBuilder) -> Seq<FieldSpec>;

/// The fields that a schema holds. The id of a field is its place in the list.
pub uninterp spec fn schema_fields(schema: Schema) -> Seq<FieldSpec>;

/// The names of the fields.
pub open spec fn field_names(fields: Seq<FieldSpec>) -> Seq<Seq<char>> {
    fields.map_values(|f: FieldSpec| f.name)
}

/// The id of the field that has the name.
pub open spec fn field_id(fields: Seq<FieldSpec>, name: Seq<char>) -> Option<u32> {
    if field_names(fields).contains(name) {
        Some(field_names(fields).index_of(name) as u32)
    } else {
        None
    }
}

/// Whether a field of this name can be added to the fields. tantivy panics on an empty name, on one
/// that begins with a hyphen and on one that is taken.
pub open spec fn can_add(fields: Seq<FieldSpec>, name: Seq<char>) -> bool {
    is_field_name(name) && !field_names(fields).contains(name) && fields.len() < u32::MAX
}

/// `Schema::builder`: a builder without a field.
#[verifier::external_body]
fn new_schema() -> (r: SchemaBuilder)
    ensures
        builder_fields(r) == Seq::<FieldSpec>::empty(),
{
    Schema::builder()
}

/// `SchemaBuilder::add_u64_field` with the three options of a row id: a field is added at the end.
#[verifier::external_body]
fn add_row_id_field(builder: &mut SchemaBuilder, name: &str)
    requires
        can_add(builder_fields(*old(builder)), name@),
    ensures
        builder_fields(*final(builder)) == builder_fields(*old(builder)).push(
            (FieldSpec { name: name@, kind: FieldKind::RowId }),
        ),
{
    let options = NumericOptions::default().set_fast().set_stored().set_indexed();
    builder.add_u64_field(name, options);
}

/// `SchemaBuilder::add_text_field` with a tokenizer's name and what is recorded: a field is added
/// at the end.
#[verifier::external_body]
fn add_text_field(
    builder: &mut SchemaBuilder,
    name: &str,
    tokenizer: &str,
    record: IndexRecordOption,
)
    requires
        can_add(builder_fields(*old(builder)), name@),
    ensures
        builder_fields(*final(builder)) == builder_fields(*old(builder)).push(
            (FieldSpec { name: name@, kind: FieldKind::Text { tokenizer: tokenizer@, record } }),
        ),
{
    let indexing = TextFieldIndexing::default().set_tokenizer(tokenizer).set_index_option(record);
    builder.add_text_field(name, TextOptions::default().set_indexing_options(indexing));
}

/// `SchemaBuilder::build`: a schema with the builder's fields.
#[verifier::external_body]
fn finish_schema(builder: SchemaBuilder) -> (r: Schema)
    ensures
        schema_fields(r) == builder_fields(builder),
{
    builder.build()
}

/// `Schema::get_field`: the id of the field that has the name, if there is one. No two fields of a
/// schema have the same name.
#[verifier::external_body]
pub(crate) fn find_field(schema: &Schema, name: &str) -> (r: Option<u32>)
    ensures
        r == field_id(schema_fields(*schema), name@),
        r matches Some(id) ==> id < schema_fields(*schema).len(),
{
    schema.get_field(name).ok().map(|field| field.field_id())
}

/// What is recorded of the tokens of a text.
pub open spec fn recorded(c: IndexConfigView) -> IndexRecordOption {
    if c.tokenizer.with_position {
        IndexRecordOption::WithFreqsAndPositions
    } else {
        IndexRecordOption::WithFreqs
    }
}

/// The text field of this name in the schema of a configuration.
pub open spec fn text_field_spec(c: IndexConfigView, name: Seq<char>) -> FieldSpec {
    FieldSpec {
        name,
        kind: FieldKind::Text {
            tokenizer: registered_name(c.tokenizer.tokenizer),
            record: recorded(c),
        },
    }
}

/// The fields of the schema of a configuration: the row id, then the texts.
pub open spec fn planned_fields(c: IndexConfigView) -> Seq<FieldSpec> {
    seq![FieldSpec { name: c.row_id_field, kind: FieldKind::RowId }] + c.text_fields.map_values(
        |name: Seq<char>| text_field_spec(c, name),
    )
}

/// The schema that a configuration calls for.
pub fn build_schema(config: &FullTextIndexConfig) -> (r: Schema)
    requires
        fields_fit(config@),
    ensures
        schema_fields(r) == planned_fields(config@),
{
    let ghost c = config@;
    let mut builder = new_schema();
    add_row_id_field(&mut builder, config.row_id_field.as_str());
    let record = if config.tokenizer.with_position {
        IndexRecordOption::WithFreqsAndPositions
    } else {
        IndexRecordOption::WithFreqs
    };
    let tokenizer = tokenizer_name(&config.tokenizer);
    let fields = config.indexed_text_fields();
    assert(builder_fields(builder) =~= planned_fields(c).take(1));
    let mut i: usize = 0;
    while i < fields.len()
        invariant
            i <= fields.len(),
            c == config@,
            fields_fit(c),
            text_views(fields@) == c.text_fields,
            tokenizer@ == registered_name(c.tokenizer.tokenizer),
            record == recorded(c),
            builder_fields(builder) == planned_fields(c).take(i + 1),
        decreases fields.len() - i,
    {
        let name = fields[i].as_str();
        proof {
            assert(c.text_fields[i as int] == name@);
            assert(c.text_fields.contains(name@));
            let held = builder_fields(builder);
            assert forall|k: int| 0 <= k < held.len() implies #[trigger] field_names(held)[k]
                != name@ by {
                if k > 0 {
                    assert(held[k] == text_field_spec(c, c.text_fields[k - 1]));
                }
            }
        }
        add_text_field(&mut builder, name, tokenizer, record);
        proof {
            assert(planned_fields(c)[i + 1] == text_field_spec(c, c.text_fields[i as int]));
            assert(planned_fields(c).take(i + 2) =~= planned_fields(c).take(i + 1).push(
                text_field_spec(c, name@),
            ));
        }
        i = i + 1;
    }
    assert(planned_fields(c).take(fields@.len() as int + 1) =~= planned_fields(c));
    finish_schema(builder)
}

/// Whether the list gives the id that each name has in the schema.
pub open spec fn maps_fields(
    fields: Seq<(String, u32)>,
    names: Seq<Seq<char>>,
    schema: Seq<FieldSpec>,
) -> bool {
    &&& fields.len() == names.len()
    &&& forall|i: int|
        0 <= i < fields.len() ==> (#[trigger] fields[i]).0@ == names[i] && field_id(
            schema,
            names[i],
        ) == Some(fields[i].1)
}

/// The first of the names that the schema lacks, among the first `n`.
pub open spec fn first_missing(
    names: Seq<Seq<char>>,
    schema: Seq<FieldSpec>,
    n: int,
) -> Option<Seq<char>>
    decreases n,
{
    if n <= 0 {
        None
    } else {
        match first_missing(names, schema, n - 1) {
            Some(name) => Some(name),
            None => if field_id(schema, names[n - 1]) is None {
                Some(names[n - 1])
            } else {
                None
            },
        }
    }
}

proof fn missing_stays(names: Seq<Seq<char>>, schema: Seq<FieldSpec>, n: int, m: int)
    requires
        n <= m,
        first_missing(names, schema, n) is Some,
    ensures
        first_missing(names, schema, m) == first_missing(names, schema, n),
    decreases m - n,
{
    if n < m {
        missing_stays(names, schema, n, m - 1);
    }
}

/// The ids that the schema gives to the text fields of a configuration. A text field that the
/// schema lacks is refused.
pub fn text_field_map(schema: &Schema, config: &FullTextIndexConfig) -> (r: Result<
    Vec<(String, u32)>,
    FtIndexError,
>)
    ensures
        match (
            r,
            first_missing(
                config@.text_fields,
                schema_fields(*schema),
                config@.text_fields.len() as int,
            ),
        ) {
            (Ok(fields), None) => maps_fields(
                fields@,
                config@.text_fields,
                schema_fields(*schema),
            ),
            (Err(e), Some(name)) => e@ == ErrorView::InvalidStorage(
                joined("missing text field '"@, name, "'"@),
            ),
            _ => false,
        },
{
    let names = config.indexed_text_fields();
    let ghost views = config@.text_fields;
    let ghost held = schema_fields(*schema);
    let mut fields: Vec<(String, u32)> = Vec::new();
    let mut i: usize = 0;
    while i < names.len()
        invariant
            i <= names.len(),
            text_views(names@) == views,
            views == config@.text_fields,
            held == schema_fields(*schema),
            maps_fields(fields@, views.take(i as int), held),
            first_missing(views, held, i as int) is None,
        decreases names.len() - i,
    {
        let name = names[i].as_str();
        assert(views[i as int] == name@);
        match find_field(schema, name) {
            Some(id) => {
                fields.push((names[i].clone(), id));
            },
            None => {
                proof {
                    assert(first_missing(views, held, i + 1) == Some(name@));
                    missing_stays(views, held, i + 1, views.len() as int);
                }
                let message = join("missing text field '", name, "'");
                return Err(FtIndexError::InvalidStorage(message));
            },
        }
        i = i + 1;
    }
    assert(views.take(names@.len() as int) =~= views);
    Ok(fields)
}

/// In the schema of a configuration the row id is the first field and the texts follow in their
/// order, so each field has its id.
pub proof fn planned_field_ids(c: IndexConfigView)
    requires
        fields_fit(c),
    ensures
        field_id(planned_fields(c), c.row_id_field) == Some(0u32),
        forall|i: int|
            0 <= i < c.text_fields.len() ==> field_id(
                planned_fields(c),
                #[trigger] c.text_fields[i],
            ) == Some((i + 1) as u32),
        first_missing(c.text_fields, planned_fields(c), c.text_fields.len() as int) is None,
{
    let names = field_names(planned_fields(c));
    assert(names =~= seq![c.row_id_field] + c.text_fields);
    assert(names[0] == c.row_id_field);
    assert(names.no_duplicates()) by {
        assert forall|i: int, j: int| 0 <= i < names.len() && 0 <= j < names.len() && i != j implies
            names[i] != names[j] by {
            if i == 0 {
                assert(names[j] == c.text_fields[j - 1]);
                assert(c.text_fields.contains(names[j]));
            } else if j == 0 {
                assert(names[i] == c.text_fields[i - 1]);
                assert(c.text_fields.contains(names[i]));
            } else {
                assert(c.text_fields[i - 1] != c.text_fields[j - 1]);
            }
        }
    }
    assert forall|i: int| 0 <= i < c.text_fields.len() implies field_id(
        planned_fields(c),
        #[trigger] c.text_fields[i],
    ) == Some((i + 1) as u32) by {
        assert(names[i + 1] == c.text_fields[i]);
    }
    none_missing(c, c.text_fields.len() as int);
}

proof fn none_missing(c: IndexConfigView, n: int)
    requires
        0 <= n <= c.text_fields.len(),
        forall|i: int|
            0 <= i < c.text_fields.len() ==> field_id(
                planned_fields(c),
                #[trigger] c.text_fields[i],
            ) is Some,
    ensures
        first_missing(c.text_fields, planned_fields(c), n) is None,
    decreases n,
{
    if n > 0 {
        none_missing(c, n - 1);
        assert(field_id(planned_fields(c), c.text_fields[n - 1]) is Some);
    }
}

/// A value of a document.
pub enum FieldValue {
    Number(u64),
    Text(Seq<char>),
}

/// The fields and values of a document of numbers and texts, in the order in which they were added.
pub uninterp spec fn document_values(document: TantivyDocument) -> Seq<(u32, FieldValue)>;

/// How many bytes the values of a document take.
pub uninterp spec fn document_bytes(document: TantivyDocument) -> nat;

/// An upper bound on the bytes that a value takes: eight for a number, and for a text its bytes
/// behind a length of five at most.
pub open spec fn value_bytes(value: FieldValue) -> nat {
    match value {
        FieldValue::Number(_) => 8,
        FieldValue::Text(text) => 5 + encode_utf8(text).len(),
    }
}

/// An upper bound on the bytes that values take.
pub open spec fn stored_bytes(values: Seq<(u32, FieldValue)>) -> nat
    decreases values.len(),
{
    if values.len() == 0 {
        0
    } else {
        stored_bytes(values.drop_last()) + value_bytes(values.last().1)
    }
}

/// `TantivyDocument::new`: a document without a value.
#[verifier::external_body]
pub(crate) fn new_document() -> (r: TantivyDocument)
    ensures
        document_values(r) == Seq::<(u32, FieldValue)>::empty(),
        document_bytes(r) == 0,
{
    TantivyDocument::new()
}

/// `TantivyDocument::add_u64` adds a number at the end. A document addresses the bytes of its values
/// by 32 bits: where they do not suffice, nothing is claimed of its values. It panics on a field id
/// past 16 bits.
#[verifier::external_body]
pub(crate) fn add_number(document: &mut TantivyDocument, field: u32, value: u64)
    requires
        field <= u16::MAX,
    ensures
        document_bytes(*final(document)) <= document_bytes(*old(document)) + value_bytes(
            FieldValue::Number(value),
        ),
        document_bytes(*old(document)) + value_bytes(FieldValue::Number(value)) <= u32::MAX
            ==> document_values(*final(document)) == document_values(*old(document)).push(
            (field, FieldValue::Number(value)),
        ),
{
    document.add_u64(Field::from_field_id(field), value);
}

/// `TantivyDocument::add_text` adds a text at the end. A document addresses the bytes of its values
/// by 32 bits: where they do not suffice, nothing is claimed of its values. It panics on a field id
/// past 16 bits.
#[verifier::external_body]
pub(crate) fn add_text(document: &mut TantivyDocument, field: u32, text: &str)
    requires
        field <= u16::MAX,
    ensures
        document_bytes(*final(document)) <= document_bytes(*old(document)) + value_bytes(
            FieldValue::Text(text@),
        ),
        document_bytes(*old(document)) + value_bytes(FieldValue::Text(text@)) <= u32::MAX
            ==> document_values(*final(document)) == document_values(*old(document)).push(
            (field, FieldValue::Text(text@)),
        ),
{
    document.add_text(Field::from_field_id(field), text);
}

/// The first field of the schema of a configuration holds the row id, and the others the texts, in
/// their order and under their names. Positions are recorded exactly if the tokenizer is to have
/// them, and the frequencies of tokens always.
pub proof fn schema_has_the_configured_fields(c: IndexConfigView, i: int)
    requires
        0 <= i < c.text_fields.len(),
    ensures
        planned_fields(c).len() == c.text_fields.len() + 1,
        planned_fields(c)[0].name == c.row_id_field,
        planned_fields(c)[0].kind == FieldKind::RowId,
        planned_fields(c)[i + 1].name == c.text_fields[i],
        planned_fields(c)[i + 1].kind matches FieldKind::Text { tokenizer, record } && tokenizer
            == (match c.tokenizer.tokenizer {
            TokenizerKind::Ngram => "paimon_ngram"@,
            TokenizerKind::Jieba => "paimon_jieba"@,
            _ => "paimon_custom"@,
        }) && record == (if c.tokenizer.with_position {
            IndexRecordOption::WithFreqsAndPositions
        } else {
            IndexRecordOption::WithFreqs
        }),
{
}

/// The name that is reported as missing is the first of the names that the schema lacks.
pub proof fn first_missing_name_is_reported(names: Seq<Seq<char>>, schema: Seq<FieldSpec>, n: int)
    requires
        0 <= n <= names.len(),
    ensures
        first_missing(names, schema, n) is None <==> forall|i: int|
            0 <= i < n ==> field_id(schema, #[trigger] names[i]) is Some,
        first_missing(names, schema, n) matches Some(name) ==> exists|k: int|
            0 <= k < n && #[trigger] names[k] == name && field_id(schema, name) is None && forall|
                i: int,
            |
                0 <= i < k ==> field_id(schema, #[trigger] names[i]) is Some,
    decreases n,
{
    if n > 0 {
        first_missing_name_is_reported(names, schema, n - 1);
        if first_missing(names, schema, n - 1) is None && field_id(schema, names[n - 1]) is None {
            assert(names[n - 1] == first_missing(names, schema, n)->Some_0);
        }
    }
}

} // verus!

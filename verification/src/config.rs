//! The configuration of an index and what an index says of itself.
use crate::error::{unit_result_is, ErrorView, FtIndexError};
use crate::text::{contains_text, list_words, listed_words, same_text, text_views};
use crate::tokenizer::{
    clone_texts, config_problem, configured, default_config, entry_views, lists_entries,
    option_entries, option_key, strip_option_prefix, TokenizerConfig, TokenizerConfigView,
};
use std::collections::HashMap;
use vstd::prelude::*;

verus! {

/// The fields of an index and its tokenizer.
#[derive(Debug, PartialEq, Eq)]
pub struct FullTextIndexConfig {
    /// The name of the field that holds the row id of a document.
    pub row_id_field: String,
    /// The names of the fields that hold the texts of a document. The first is the default.
    pub text_fields: Vec<String>,
    pub tokenizer: TokenizerConfig,
}

/// The model of a `FullTextIndexConfig`: its texts by their characters.
#[verifier::ext_equal]
pub struct IndexConfigView {
    pub row_id_field: Seq<char>,
    pub text_fields: Seq<Seq<char>>,
    pub tokenizer: TokenizerConfigView,
}

impl View for FullTextIndexConfig {
    type V = IndexConfigView;

    open spec fn view(&self) -> IndexConfigView {
        IndexConfigView {
            row_id_field: self.row_id_field@,
            text_fields: text_views(self.text_fields@),
            tokenizer: self.tokenizer@,
        }
    }
}

impl Clone for FullTextIndexConfig {
    fn clone(&self) -> (r: Self)
        ensures
            r@ == self@,
    {
        FullTextIndexConfig {
            row_id_field: self.row_id_field.clone(),
            text_fields: clone_texts(&self.text_fields),
            tokenizer: self.tokenizer.clone(),
        }
    }
}

/// One text field `text`, the row id in `row_id`, and the default tokenizer.
pub open spec fn default_index_config() -> IndexConfigView {
    IndexConfigView {
        row_id_field: "row_id"@,
        text_fields: seq!["text"@],
        tokenizer: default_config(),
    }
}

/// Whether a schema can have a field of this name.
pub open spec fn is_field_name(name: Seq<char>) -> bool {
    name.len() > 0 && name[0] != '-'
}

/// Whether a schema can have the fields of a configuration: their names can be used, no two are
/// the same, and there are fewer of them than 32 bits can number.
pub open spec fn fields_fit(c: IndexConfigView) -> bool {
    &&& is_field_name(c.row_id_field)
    &&& forall|i: int| 0 <= i < c.text_fields.len() ==> is_field_name(#[trigger] c.text_fields[i])
    &&& !c.text_fields.contains(c.row_id_field)
    &&& c.text_fields.no_duplicates()
    &&& c.text_fields.len() < u32::MAX
}

/// The text fields after the first `n` options. An option `text-fields` lists them, separated by
/// commas; a list without a name changes nothing.
pub open spec fn text_fields_after(entries: Seq<(Seq<char>, Seq<char>)>, n: int) -> Seq<Seq<char>>
    decreases n,
{
    if n <= 0 {
        default_index_config().text_fields
    } else {
        let before = text_fields_after(entries, n - 1);
        let listed = listed_words(entries[n - 1].1, ',');
        if option_key(entries[n - 1].0) == "text-fields"@ && listed.len() > 0 {
            listed
        } else {
            before
        }
    }
}

/// What a list of options gives: the configuration of an index, or the error that refuses it.
pub open spec fn index_configured(entries: Seq<(Seq<char>, Seq<char>)>) -> Result<
    IndexConfigView,
    ErrorView,
> {
    match configured(entries) {
        Err(e) => Err(e),
        Ok(tokenizer) => Ok(
            IndexConfigView {
                row_id_field: default_index_config().row_id_field,
                text_fields: text_fields_after(entries, entries.len() as int),
                tokenizer,
            },
        ),
    }
}

/// Whether a result is the configuration or the error that the model gives.
pub open spec fn index_config_result_is(
    r: Result<FullTextIndexConfig, FtIndexError>,
    expected: Result<IndexConfigView, ErrorView>,
) -> bool {
    match (r, expected) {
        (Ok(config), Ok(c)) => config@ == c,
        (Err(e), Err(p)) => e@ == p,
        _ => false,
    }
}

fn name_fits(name: &str) -> (r: bool)
    ensures
        r == is_field_name(name@),
{
    !name.is_empty() && name.get_char(0) != '-'
}

fn default_text_fields() -> (r: Vec<String>)
    ensures
        text_views(r@) == default_index_config().text_fields,
{
    let r = vec!["text".to_owned()];
    assert(text_views(r@) =~= seq!["text"@]);
    r
}

impl FullTextIndexConfig {
    /// The default configuration.
    pub fn new() -> (r: Self)
        ensures
            r@ == default_index_config(),
    {
        FullTextIndexConfig {
            row_id_field: "row_id".to_owned(),
            text_fields: default_text_fields(),
            tokenizer: TokenizerConfig::default(),
        }
    }

    /// The same configuration with another tokenizer.
    pub fn tokenizer(self, tokenizer: TokenizerConfig) -> (r: Self)
        ensures
            r@ == (IndexConfigView { tokenizer: tokenizer@, ..self@ }),
    {
        FullTextIndexConfig {
            row_id_field: self.row_id_field,
            text_fields: self.text_fields,
            tokenizer,
        }
    }

    /// The configuration that the options give. Where two options set the same thing, the one that
    /// the map yields last stands.
    pub fn from_options(options: &HashMap<String, String>) -> (r: Result<Self, FtIndexError>)
        ensures
            exists|entries: Seq<(Seq<char>, Seq<char>)>|
                #![trigger index_configured(entries)]
                lists_entries(entries, options.deep_view()) && index_config_result_is(
                    r,
                    index_configured(entries),
                ),
    {
        let entries = option_entries(options);
        Self::from_entries(&entries)
    }

    /// The configuration that the options give, taken one after the other.
    pub fn from_entries(entries: &Vec<(String, String)>) -> (r: Result<Self, FtIndexError>)
        ensures
            index_config_result_is(r, index_configured(entry_views(entries@))),
    {
        let tokenizer = match TokenizerConfig::from_entries(entries) {
            Ok(tokenizer) => tokenizer,
            Err(e) => {
                return Err(e);
            },
        };
        let ghost views = entry_views(entries@);
        let mut text_fields = default_text_fields();
        let mut i: usize = 0;
        while i < entries.len()
            invariant
                i <= entries.len(),
                views == entry_views(entries@),
                text_views(text_fields@) == text_fields_after(views, i as int),
            decreases entries.len() - i,
        {
            let key = strip_option_prefix(entries[i].0.as_str());
            assert(views[i as int] == (entries@[i as int].0@, entries@[i as int].1@));
            if same_text(key, "text-fields") {
                let listed = list_words(entries[i].1.as_str(), ',');
                assert(text_views(listed@).len() == listed@.len());
                if !listed.is_empty() {
                    text_fields = listed;
                }
            }
            i = i + 1;
        }
        Ok(
            FullTextIndexConfig {
                row_id_field: "row_id".to_owned(),
                text_fields,
                tokenizer,
            },
        )
    }

    /// Refuses a tokenizer that no index can be built with.
    pub fn validate(&self) -> (r: Result<(), FtIndexError>)
        ensures
            unit_result_is(r, config_problem(self@.tokenizer)),
    {
        self.tokenizer.validate()
    }

    /// The field that a document's text goes to where no field is named.
    pub fn default_text_field(&self) -> (r: &str)
        ensures
            r@ == (if self@.text_fields.len() > 0 {
                self@.text_fields[0]
            } else {
                "text"@
            }),
    {
        if self.text_fields.is_empty() {
            "text"
        } else {
            self.text_fields[0].as_str()
        }
    }

    /// The names of the fields that hold texts.
    pub fn indexed_text_fields(&self) -> (r: &Vec<String>)
        ensures
            text_views(r@) == self@.text_fields,
    {
        &self.text_fields
    }

    /// Whether a schema can have the fields of this configuration.
    pub fn has_usable_fields(&self) -> (r: bool)
        ensures
            r == fields_fit(self@),
    {
        let ghost c = self@;
        if !name_fits(self.row_id_field.as_str()) {
            return false;
        }
        if contains_text(&self.text_fields, self.row_id_field.as_str()) {
            return false;
        }
        if self.text_fields.len() as u64 >= 0xffff_ffff {
            return false;
        }
        let mut i: usize = 0;
        while i < self.text_fields.len()
            invariant
                i <= self.text_fields.len(),
                c == self@,
                forall|k: int| 0 <= k < i ==> is_field_name(#[trigger] c.text_fields[k]),
                forall|k: int, m: int|
                    0 <= k < i && k < m < c.text_fields.len() ==> c.text_fields[k]
                        != c.text_fields[m],
            decreases self.text_fields.len() - i,
        {
            let name = self.text_fields[i].as_str();
            assert(c.text_fields[i as int] == name@);
            if !name_fits(name) {
                return false;
            }
            let mut j: usize = i + 1;
            while j < self.text_fields.len()
                invariant
                    i < j <= self.text_fields.len(),
                    c == self@,
                    c.text_fields[i as int] == name@,
                    forall|m: int| i < m < j ==> c.text_fields[m] != name@,
                decreases self.text_fields.len() - j,
            {
                assert(c.text_fields[j as int] == self.text_fields@[j as int]@);
                if same_text(self.text_fields[j].as_str(), name) {
                    return false;
                }
                j = j + 1;
            }
            i = i + 1;
        }
        true
    }
}

/// What an index says of itself.
#[derive(Debug, PartialEq, Eq)]
pub struct FullTextIndexMetadata {
    pub config: FullTextIndexConfig,
    pub document_count: u64,
    /// The version of tantivy that wrote the index.
    pub tantivy_version: String,
}

/// The model of a `FullTextIndexMetadata`: its texts by their characters.
#[verifier::ext_equal]
pub struct MetadataView {
    pub config: IndexConfigView,
    pub document_count: u64,
    pub tantivy_version: Seq<char>,
}

impl View for FullTextIndexMetadata {
    type V = MetadataView;

    open spec fn view(&self) -> MetadataView {
        MetadataView {
            config: self.config@,
            document_count: self.document_count,
            tantivy_version: self.tantivy_version@,
        }
    }
}

/// The text fields are those that the last option `text-fields` lists, between commas and with space
/// around the names, leaving out the options that list none.
pub proof fn last_list_of_text_fields_stands(
    entries: Seq<(Seq<char>, Seq<char>)>,
    n: int,
    at: int,
)
    requires
        0 <= at < n <= entries.len(),
        option_key(entries[at].0) == "text-fields"@,
        listed_words(entries[at].1, ',').len() > 0,
        forall|i: int|
            at < i < n ==> option_key((#[trigger] entries[i]).0) != "text-fields"@ || listed_words(
                entries[i].1,
                ',',
            ).len() == 0,
    ensures
        text_fields_after(entries, n) == listed_words(entries[at].1, ','),
    decreases n,
{
    if at < n - 1 {
        last_list_of_text_fields_stands(entries, n - 1, at);
        assert(option_key(entries[n - 1].0) != "text-fields"@ || listed_words(
            entries[n - 1].1,
            ',',
        ).len() == 0);
    }
}

/// Where no option lists text fields, there is one with the name `text`.
pub proof fn text_is_the_field_where_none_is_listed(
    entries: Seq<(Seq<char>, Seq<char>)>,
    n: int,
)
    requires
        0 <= n <= entries.len(),
        forall|i: int|
            0 <= i < n ==> option_key((#[trigger] entries[i]).0) != "text-fields"@ || listed_words(
                entries[i].1,
                ',',
            ).len() == 0,
    ensures
        text_fields_after(entries, n) == seq!["text"@],
    decreases n,
{
    if n > 0 {
        text_is_the_field_where_none_is_listed(entries, n - 1);
        assert(option_key(entries[n - 1].0) != "text-fields"@ || listed_words(
            entries[n - 1].1,
            ',',
        ).len() == 0);
    }
}

/// The options of an index are accepted exactly if those of its tokenizer are, and give the tokenizer
/// that these do. The row id is in the field `row_id`.
pub proof fn index_options_give_the_tokenizer(entries: Seq<(Seq<char>, Seq<char>)>)
    ensures
        index_configured(entries) is Ok <==> configured(entries) is Ok,
        configured(entries) matches Err(e) ==> index_configured(entries) == Err::<
            IndexConfigView,
            ErrorView,
        >(e),
        index_configured(entries) matches Ok(c) ==> {
            &&& configured(entries) == Ok::<TokenizerConfigView, ErrorView>(c.tokenizer)
            &&& c.row_id_field == "row_id"@
            &&& c.text_fields == text_fields_after(entries, entries.len() as int)
        },
{
}

/// The model of a configuration shows all that it holds.
pub proof fn model_shows_what_a_configuration_holds(config: FullTextIndexConfig, i: int)
    ensures
        config@.row_id_field == config.row_id_field@,
        config@.text_fields.len() == config.text_fields@.len(),
        0 <= i < config.text_fields@.len() ==> config@.text_fields[i] == config.text_fields@[i]@,
        config@.tokenizer == config.tokenizer@,
{
}

/// A result that is what the model gives succeeds exactly where the model does, with a configuration
/// that shows what the model has, or fails with its error.
pub proof fn index_configurations_agree_with_the_model(
    r: Result<FullTextIndexConfig, FtIndexError>,
    expected: Result<IndexConfigView, ErrorView>,
)
    requires
        index_config_result_is(r, expected),
    ensures
        r is Ok <==> expected is Ok,
        r matches Ok(config) ==> config@ == expected->Ok_0,
        r matches Err(e) ==> e@ == expected->Err_0,
{
}

/// The default configuration has one text field `text`, the row id in `row_id`, and the settings that
/// a tokenizer has where no option names any.
pub proof fn default_index_has_one_text_field()
    ensures
        default_index_config().text_fields == seq!["text"@],
        default_index_config().row_id_field == "row_id"@,
        default_index_config().tokenizer == default_config(),
{
}

/// A schema can have the fields of a configuration exactly if none of their names is empty or begins
/// with a hyphen, no two are the same, and 32 bits can number them.
pub proof fn usable_fields(c: IndexConfigView)
    ensures
        fields_fit(c) <==> {
            &&& c.row_id_field.len() > 0 && c.row_id_field[0] != '-'
            &&& forall|i: int|
                0 <= i < c.text_fields.len() ==> (#[trigger] c.text_fields[i]).len() > 0
                    && c.text_fields[i][0] != '-' && c.text_fields[i] != c.row_id_field
            &&& forall|i: int, j: int|
                0 <= i < j < c.text_fields.len() ==> c.text_fields[i] != c.text_fields[j]
            &&& c.text_fields.len() < u32::MAX
        },
{
    assert(c.text_fields.contains(c.row_id_field) <==> exists|i: int|
        0 <= i < c.text_fields.len() && #[trigger] c.text_fields[i] == c.row_id_field);
    if forall|i: int, j: int|
        0 <= i < j < c.text_fields.len() ==> c.text_fields[i] != c.text_fields[j] {
        assert forall|i: int, j: int|
            0 <= i < c.text_fields.len() && 0 <= j < c.text_fields.len() && i
                != j implies c.text_fields[i] != c.text_fields[j] by {
            if i > j {
                assert(c.text_fields[j] != c.text_fields[i]);
            }
        }
    }
    if !c.text_fields.contains(c.row_id_field) {
        assert forall|i: int| 0 <= i < c.text_fields.len() implies #[trigger] c.text_fields[i]
            != c.row_id_field by {
            assert(c.text_fields.contains(c.text_fields[i]));
        }
    }
}

} // verus!

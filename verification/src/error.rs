//! The errors of the library.
use vstd::prelude::*;

verus! {

/// Why an operation was refused.
#[derive(Debug, PartialEq, Eq)]
pub enum FtIndexError {
    /// The option `key` has a value that cannot be used.
    InvalidOption { key: String, message: String },
    /// The index, or what is to be stored in it, is not as it must be.
    InvalidStorage(String),
    /// The query cannot be run.
    InvalidQuery(String),
    /// The boost with these bits is not a finite positive value.
    InvalidBoost(u32),
    /// The negative boost with these bits is not a finite value in `[0.0, 1.0]`.
    InvalidNegativeBoost(u32),
}

/// The model of an error: its texts by their characters.
pub enum ErrorView {
    InvalidOption { key: Seq<char>, message: Seq<char> },
    InvalidStorage(Seq<char>),
    InvalidQuery(Seq<char>),
    InvalidBoost(u32),
    InvalidNegativeBoost(u32),
}

impl View for FtIndexError {
    type V = ErrorView;

    open spec fn view(&self) -> ErrorView {
        match *self {
            FtIndexError::InvalidOption { key, message } => ErrorView::InvalidOption {
                key: key@,
                message: message@,
            },
            FtIndexError::InvalidStorage(message) => ErrorView::InvalidStorage(message@),
            FtIndexError::InvalidQuery(message) => ErrorView::InvalidQuery(message@),
            FtIndexError::InvalidBoost(bits) => ErrorView::InvalidBoost(bits),
            FtIndexError::InvalidNegativeBoost(bits) => ErrorView::InvalidNegativeBoost(bits),
        }
    }
}

/// Whether a result is what the model says: the same success, or an error with the same texts.
pub open spec fn unit_result_is(r: Result<(), FtIndexError>, problem: Option<ErrorView>) -> bool {
    match (r, problem) {
        (Ok(_), None) => true,
        (Err(e), Some(p)) => e@ == p,
        _ => false,
    }
}

/// `left`, then `middle`, then `right`.
pub open spec fn joined(left: Seq<char>, middle: Seq<char>, right: Seq<char>) -> Seq<char> {
    left + middle + right
}

/// `left`, `middle` and `right` in one string.
pub fn join(left: &str, middle: &str, right: &str) -> (r: String)
    ensures
        r@ == joined(left@, middle@, right@),
{
    let mut out = left.to_owned();
    out.append(middle);
    out.append(right);
    out
}

/// An error that refuses a stored value or an index with `message`.
pub fn invalid_storage(message: &str) -> (e: FtIndexError)
    ensures
        e@ == ErrorView::InvalidStorage(message@),
{
    FtIndexError::InvalidStorage(message.to_owned())
}

/// An error that refuses a query with `message`.
pub fn invalid_query(message: &str) -> (e: FtIndexError)
    ensures
        e@ == ErrorView::InvalidQuery(message@),
{
    FtIndexError::InvalidQuery(message.to_owned())
}

/// The model of an error shows all that it holds.
pub proof fn model_shows_the_error(e: FtIndexError)
    ensures
        e matches FtIndexError::InvalidOption { key, message } ==> e@ == (
        ErrorView::InvalidOption { key: key@, message: message@ }),
        e matches FtIndexError::InvalidStorage(message) ==> e@ == ErrorView::InvalidStorage(
            message@,
        ),
        e matches FtIndexError::InvalidQuery(message) ==> e@ == ErrorView::InvalidQuery(message@),
        e matches FtIndexError::InvalidBoost(bits) ==> e@ == ErrorView::InvalidBoost(bits),
        e matches FtIndexError::InvalidNegativeBoost(bits) ==> e@
            == ErrorView::InvalidNegativeBoost(bits),
{
}

/// Texts are joined in their order, and nothing is put between them.
pub proof fn texts_are_joined_in_their_order(left: Seq<char>, middle: Seq<char>, right: Seq<char>)
    ensures
        joined(left, middle, right) == left + middle + right,
{
}

/// A check agrees with the model if it fails exactly where the model does, with its error.
pub proof fn checks_agree_with_the_model(r: Result<(), FtIndexError>, problem: Option<ErrorView>)
    requires
        unit_result_is(r, problem),
    ensures
        r is Ok <==> problem is None,
        r matches Err(e) ==> problem == Some(e@),
{
}

} // verus!

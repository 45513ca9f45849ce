//! The rules of the boundary to other languages: what is checked of the arguments of a call, how
//! the outcome of a call is reported, and how a result is handed over.
use crate::error::{join, joined};
use crate::text::{
    decimal, decimal_text, replace_char, replaced, replacing_goes_character_by_character,
};
use crate::tokenizer::entry_views;
use vstd::prelude::*;

verus! {

/// A text argument as it came in.
#[derive(Debug, PartialEq, Eq)]
pub enum RawText {
    /// A null pointer.
    Null,
    /// Bytes that are no UTF-8, with what is wrong with them.
    NotUtf8(String),
    Text(String),
}

/// How a call went.
#[derive(Debug, PartialEq, Eq)]
pub enum CallOutcome {
    Done,
    Failed(String),
    /// The call panicked, with a message if there was one that could be read.
    Panicked(Option<String>),
}

/// What is reported of a call: its status and the error that is kept, if any.
#[derive(Debug, PartialEq, Eq)]
pub struct CallReport {
    pub status: i32,
    pub last_error: Option<String>,
}

/// What is wrong with a pointer argument that is null.
pub open spec fn null_problem(name: Seq<char>) -> Seq<char> {
    joined(name, " is null"@, ""@)
}

/// Whether a result is nothing amiss, or the message that the model gives.
pub open spec fn check_is(r: Result<(), String>, problem: Option<Seq<char>>) -> bool {
    match (r, problem) {
        (Ok(_), None) => true,
        (Err(message), Some(p)) => message@ == p,
        _ => false,
    }
}

/// Refuses a pointer argument that is null.
pub fn require_pointer(is_null: bool, name: &str) -> (r: Result<(), String>)
    ensures
        check_is(
            r,
            if is_null {
                Some(null_problem(name@))
            } else {
                None
            },
        ),
{
    if is_null {
        Err(join(name, " is null", ""))
    } else {
        Ok(())
    }
}

/// Refuses a null pointer to a slice that is not empty; of an empty slice the pointer is not looked
/// at.
pub fn const_slice(is_null: bool, len: usize, name: &str) -> (r: Result<(), String>)
    ensures
        check_is(
            r,
            if len > 0 && is_null {
                Some(null_problem(name@))
            } else {
                None
            },
        ),
{
    if len == 0 {
        Ok(())
    } else {
        require_pointer(is_null, name)
    }
}

/// The text that an argument holds, or what is wrong with it.
pub open spec fn text_argument(raw: RawText, name: Seq<char>) -> Result<Seq<char>, Seq<char>> {
    match raw {
        RawText::Null => Err(null_problem(name)),
        RawText::NotUtf8(message) => Err(joined(name, " is not valid UTF-8: "@, message@)),
        RawText::Text(text) => Ok(text@),
    }
}

/// The text that an argument holds.
pub fn cstr_to_string(raw: &RawText, name: &str) -> (r: Result<String, String>)
    ensures
        match (r, text_argument(*raw, name@)) {
            (Ok(text), Ok(t)) => text@ == t,
            (Err(message), Err(p)) => message@ == p,
            _ => false,
        },
{
    match raw {
        RawText::Null => Err(join(name, " is null", "")),
        RawText::NotUtf8(message) => Err(join(name, " is not valid UTF-8: ", message.as_str())),
        RawText::Text(text) => Ok(text.clone()),
    }
}

/// The pairs of texts that the first `n` pairs of arguments hold, or what is wrong with the first
/// argument that is refused.
pub open spec fn text_pairs(
    raw: Seq<(RawText, RawText)>,
    first: Seq<char>,
    second: Seq<char>,
    n: int,
) -> Result<Seq<(Seq<char>, Seq<char>)>, Seq<char>>
    decreases n,
{
    if n <= 0 {
        Ok(Seq::empty())
    } else {
        match text_pairs(raw, first, second, n - 1) {
            Err(e) => Err(e),
            Ok(before) => match text_argument(raw[n - 1].0, first) {
                Err(e) => Err(e),
                Ok(a) => match text_argument(raw[n - 1].1, second) {
                    Err(e) => Err(e),
                    Ok(b) => Ok(before.push((a, b))),
                },
            },
        }
    }
}

/// Whether a result is the pairs, or the message, that the model gives.
pub open spec fn pairs_are(
    r: Result<Vec<(String, String)>, String>,
    expected: Result<Seq<(Seq<char>, Seq<char>)>, Seq<char>>,
) -> bool {
    match (r, expected) {
        (Ok(pairs), Ok(p)) => entry_views(pairs@) == p,
        (Err(message), Err(p)) => message@ == p,
        _ => false,
    }
}

proof fn text_pairs_fail(
    raw: Seq<(RawText, RawText)>,
    first: Seq<char>,
    second: Seq<char>,
    n: int,
    m: int,
)
    requires
        n <= m,
        text_pairs(raw, first, second, n) is Err,
    ensures
        text_pairs(raw, first, second, m) == text_pairs(raw, first, second, n),
    decreases m - n,
{
    if n < m {
        text_pairs_fail(raw, first, second, n, m - 1);
    }
}

fn read_pairs(raw: &Vec<(RawText, RawText)>, first: &str, second: &str) -> (r: Result<
    Vec<(String, String)>,
    String,
>)
    ensures
        pairs_are(r, text_pairs(raw@, first@, second@, raw@.len() as int)),
{
    let mut pairs: Vec<(String, String)> = Vec::new();
    let mut i: usize = 0;
    assert(entry_views(pairs@) =~= Seq::<(Seq<char>, Seq<char>)>::empty());
    while i < raw.len()
        invariant
            i <= raw.len(),
            text_pairs(raw@, first@, second@, i as int) == Ok::<
                Seq<(Seq<char>, Seq<char>)>,
                Seq<char>,
            >(entry_views(pairs@)),
        decreases raw.len() - i,
    {
        let a = match cstr_to_string(&raw[i].0, first) {
            Ok(text) => text,
            Err(message) => {
                proof {
                    text_pairs_fail(raw@, first@, second@, i + 1, raw@.len() as int);
                }
                return Err(message);
            },
        };
        let b = match cstr_to_string(&raw[i].1, second) {
            Ok(text) => text,
            Err(message) => {
                proof {
                    text_pairs_fail(raw@, first@, second@, i + 1, raw@.len() as int);
                }
                return Err(message);
            },
        };
        let ghost before = pairs@;
        pairs.push((a, b));
        assert(entry_views(pairs@) =~= entry_views(before).push((a@, b@)));
        i = i + 1;
    }
    Ok(pairs)
}

/// The options that a call gives, or what is wrong with its arguments: without options nothing is
/// looked at.
pub open spec fn given_options(
    len: usize,
    keys_null: bool,
    values_null: bool,
    raw: Seq<(RawText, RawText)>,
) -> Result<Seq<(Seq<char>, Seq<char>)>, Seq<char>> {
    if len == 0 {
        Ok(Seq::empty())
    } else if keys_null {
        Err("keys is null"@)
    } else if values_null {
        Err("values is null"@)
    } else {
        text_pairs(raw, "option key"@, "option value"@, raw.len() as int)
    }
}

/// The options that a call gives, in their order.
pub fn options_from_raw(
    len: usize,
    keys_null: bool,
    values_null: bool,
    raw: &Vec<(RawText, RawText)>,
) -> (r: Result<Vec<(String, String)>, String>)
    ensures
        pairs_are(r, given_options(len, keys_null, values_null, raw@)),
{
    if len == 0 {
        let none: Vec<(String, String)> = Vec::new();
        assert(entry_views(none@) =~= Seq::<(Seq<char>, Seq<char>)>::empty());
        return Ok(none);
    }
    if keys_null {
        return Err("keys is null".to_owned());
    }
    if values_null {
        return Err("values is null".to_owned());
    }
    read_pairs(raw, "option key", "option value")
}

/// The fields that a call gives for a document, or what is wrong with its arguments.
pub open spec fn given_fields(
    len: usize,
    names_null: bool,
    texts_null: bool,
    raw: Seq<(RawText, RawText)>,
) -> Result<Seq<(Seq<char>, Seq<char>)>, Seq<char>> {
    if len == 0 {
        Err("document fields must not be empty"@)
    } else if names_null {
        Err("field_names is null"@)
    } else if texts_null {
        Err("texts is null"@)
    } else {
        text_pairs(raw, "field name"@, "field text"@, raw.len() as int)
    }
}

/// The fields that a call gives for a document, in their order.
pub fn fields_from_raw(
    len: usize,
    names_null: bool,
    texts_null: bool,
    raw: &Vec<(RawText, RawText)>,
) -> (r: Result<Vec<(String, String)>, String>)
    ensures
        pairs_are(r, given_fields(len, names_null, texts_null, raw@)),
{
    if len == 0 {
        return Err("document fields must not be empty".to_owned());
    }
    if names_null {
        return Err("field_names is null".to_owned());
    }
    if texts_null {
        return Err("texts is null".to_owned());
    }
    read_pairs(raw, "field name", "field text")
}

/// The text of a query that a call gives, or what is wrong with its arguments: there must be a place
/// for the number of results.
pub open spec fn given_query(result_len_null: bool, query: RawText) -> Result<
    Seq<char>,
    Seq<char>,
> {
    if result_len_null {
        Err("result_len is null"@)
    } else {
        text_argument(query, "query"@)
    }
}

/// The text of a query that a call gives.
pub fn query_from_raw(result_len_null: bool, query: &RawText) -> (r: Result<String, String>)
    ensures
        match (r, given_query(result_len_null, *query)) {
            (Ok(text), Ok(t)) => text@ == t,
            (Err(message), Err(p)) => message@ == p,
            _ => false,
        },
{
    if result_len_null {
        return Err("result_len is null".to_owned());
    }
    cstr_to_string(query, "query")
}

/// What is wrong with the places that a call gives for its results, if anything. The number of
/// results has been reported by then.
pub open spec fn delivery_problem(
    result_len: usize,
    capacity: usize,
    row_ids_null: bool,
    scores_null: bool,
) -> Option<Seq<char>> {
    if result_len > capacity {
        Some(
            joined(
                "result capacity "@,
                decimal(capacity as nat),
                joined(" is smaller than result length "@, decimal(result_len as nat), ""@),
            ),
        )
    } else if result_len > 0 && row_ids_null {
        Some("row_ids is null"@)
    } else if result_len > 0 && scores_null {
        Some("scores is null"@)
    } else {
        None
    }
}

/// Refuses results for which a call gives no place. Where it does not, as many results as there are
/// can be written.
pub fn check_delivery(
    result_len: usize,
    capacity: usize,
    row_ids_null: bool,
    scores_null: bool,
) -> (r: Result<(), String>)
    ensures
        check_is(r, delivery_problem(result_len, capacity, row_ids_null, scores_null)),
        r is Ok && result_len > 0 ==> result_len <= capacity && !row_ids_null && !scores_null,
{
    if result_len > capacity {
        let tail = join(
            " is smaller than result length ",
            decimal_text(result_len as u64).as_str(),
            "",
        );
        return Err(
            join("result capacity ", decimal_text(capacity as u64).as_str(), tail.as_str()),
        );
    }
    if result_len > 0 {
        if row_ids_null {
            return Err("row_ids is null".to_owned());
        }
        if scores_null {
            return Err("scores is null".to_owned());
        }
    }
    Ok(())
}

/// An error as it is kept: without a zero character, which would end it early.
pub open spec fn kept_error(message: Seq<char>) -> Seq<char> {
    replaced(message, '\0', "\\0"@)
}

/// An error as it is kept.
pub fn set_error(message: &str) -> (r: String)
    ensures
        r@ == kept_error(message@),
{
    replace_char(message, '\0', "\\0")
}

/// What is said of a panic.
pub open spec fn panic_text(message: Option<String>) -> Seq<char> {
    match message {
        Some(m) => joined("native panic: "@, m@, ""@),
        None => "native panic: unknown"@,
    }
}

/// What is said of a panic, with its message if there was one that could be read.
pub fn panic_message(message: &Option<String>) -> (r: String)
    ensures
        r@ == panic_text(*message),
{
    match message {
        Some(m) => join("native panic: ", m.as_str(), ""),
        None => "native panic: unknown".to_owned(),
    }
}

/// The error that an outcome leaves behind, if any.
pub open spec fn outcome_error(outcome: CallOutcome) -> Option<Seq<char>> {
    match outcome {
        CallOutcome::Done => None,
        CallOutcome::Failed(message) => Some(kept_error(message@)),
        CallOutcome::Panicked(message) => Some(kept_error(panic_text(message))),
    }
}

/// What is reported of a call: zero where it is done, minus one with an error where it failed or
/// panicked.
pub fn ffi_status(outcome: &CallOutcome) -> (r: CallReport)
    ensures
        match (r.last_error, outcome_error(*outcome)) {
            (None, None) => r.status == 0,
            (Some(message), Some(m)) => r.status == -1 && message@ == m,
            _ => false,
        },
{
    match outcome {
        CallOutcome::Done => CallReport { status: 0, last_error: None },
        CallOutcome::Failed(message) => CallReport {
            status: -1,
            last_error: Some(set_error(message.as_str())),
        },
        CallOutcome::Panicked(message) => {
            let text = panic_message(message);
            CallReport { status: -1, last_error: Some(set_error(text.as_str())) }
        },
    }
}

/// An error that is kept has no zero character, and is the message itself where that has none.
pub proof fn kept_error_has_no_zero(message: Seq<char>)
    ensures
        !kept_error(message).contains('\0'),
        !message.contains('\0') ==> kept_error(message) == message,
    decreases message.len(),
{
    reveal_strlit("\\0");
    assert("\\0"@ =~= seq!['\\', '0']);
    if message.len() > 0 {
        kept_error_has_no_zero(message.drop_last());
        let before = kept_error(message.drop_last());
        if !message.contains('\0') {
            assert(!message.drop_last().contains('\0')) by {
                if message.drop_last().contains('\0') {
                    let i = choose|i: int|
                        0 <= i < message.drop_last().len() && message.drop_last()[i] == '\0';
                    assert(message[i] == '\0');
                }
            }
            assert(message.last() != '\0') by {
                assert(message[message.len() - 1] == message.last());
            }
            assert(message.drop_last().push(message.last()) =~= message);
        }
        assert forall|i: int| 0 <= i < kept_error(message).len() implies kept_error(message)[i]
            != '\0' by {
            if i < before.len() {
                assert(before.contains(before[i]));
            }
        }
    }
}

/// What is wrong with a read that the input refused.
pub open spec fn read_problem(offset: u64, length: usize) -> Seq<char> {
    joined(
        "pread callback failed at offset "@,
        decimal(offset as nat),
        joined(" length "@, decimal(length as nat), ""@),
    )
}

/// What is wrong with a read, given the status of the callback that did it.
pub fn check_read(status: i32, offset: u64, length: usize) -> (r: Result<(), String>)
    ensures
        check_is(
            r,
            if status == 0 {
                None
            } else {
                Some(read_problem(offset, length))
            },
        ),
{
    if status == 0 {
        return Ok(());
    }
    let tail = join(" length ", decimal_text(length as u64).as_str(), "");
    Err(
        join(
            "pread callback failed at offset ",
            decimal_text(offset).as_str(),
            tail.as_str(),
        ),
    )
}

/// What is wrong with a write, given the status of the callback that did it.
pub fn check_write(status: i32) -> (r: Result<(), String>)
    ensures
        check_is(
            r,
            if status == 0 {
                None
            } else {
                Some("write callback failed"@)
            },
        ),
{
    if status == 0 {
        Ok(())
    } else {
        Err("write callback failed".to_owned())
    }
}

/// What is wrong with a flush, given the status of the callback that did it, if there is one.
pub fn check_flush(status: Option<i32>) -> (r: Result<(), String>)
    ensures
        check_is(
            r,
            match status {
                Some(s) if s != 0 => Some("flush callback failed"@),
                _ => None,
            },
        ),
{
    match status {
        Some(s) => if s == 0 {
            Ok(())
        } else {
            Err("flush callback failed".to_owned())
        },
        None => Ok(()),
    }
}

/// The texts of pairs of arguments are taken in their order, the first of each pair as the first and
/// the second as the second, and only if all of them are texts.
pub proof fn pairs_keep_their_places(
    raw: Seq<(RawText, RawText)>,
    first: Seq<char>,
    second: Seq<char>,
    n: int,
)
    requires
        0 <= n <= raw.len(),
    ensures
        text_pairs(raw, first, second, n) is Ok <==> forall|i: int|
            0 <= i < n ==> (#[trigger] raw[i]).0 is Text && raw[i].1 is Text,
        text_pairs(raw, first, second, n) matches Ok(pairs) ==> pairs.len() == n && forall|i: int|
            0 <= i < n ==> #[trigger] pairs[i] == (raw[i].0->Text_0@, raw[i].1->Text_0@),
    decreases n,
{
    if n > 0 {
        pairs_keep_their_places(raw, first, second, n - 1);
    }
}

/// A message is kept character by character: a zero as a backslash and the digit zero, and every
/// other character as it is.
pub proof fn errors_are_kept_character_by_character(message: Seq<char>, c: char)
    ensures
        kept_error(Seq::empty()) == Seq::<char>::empty(),
        kept_error(message.push(c)) == kept_error(message) + (if c == '\0' {
            seq!['\\', '0']
        } else {
            seq![c]
        }),
{
    reveal_strlit("\\0");
    assert("\\0"@ =~= seq!['\\', '0']);
    replacing_goes_character_by_character(message, c, '\0', "\\0"@);
}

/// Only a call that is done leaves no error behind. One that failed leaves its own message, and one
/// that panicked the message of the panic.
pub proof fn outcomes_leave_their_errors(outcome: CallOutcome)
    ensures
        outcome_error(outcome) is None <==> outcome is Done,
        outcome matches CallOutcome::Failed(message) ==> outcome_error(outcome) == Some(
            kept_error(message@),
        ),
        outcome matches CallOutcome::Panicked(Some(message)) ==> outcome_error(outcome) == Some(
            kept_error("native panic: "@ + message@),
        ),
{
    reveal_strlit("");
    if let CallOutcome::Panicked(Some(message)) = outcome {
        assert(joined("native panic: "@, message@, ""@) =~= "native panic: "@ + message@);
    }
}

/// Results are refused exactly if there are more of them than there is place for, or if there are
/// some and one of the two places is missing.
pub proof fn refused_deliveries(
    result_len: usize,
    capacity: usize,
    row_ids_null: bool,
    scores_null: bool,
)
    ensures
        delivery_problem(result_len, capacity, row_ids_null, scores_null) is Some <==> result_len
            > capacity || (result_len > 0 && (row_ids_null || scores_null)),
{
}

/// An argument that is missing is named by what is said of it.
pub proof fn missing_arguments_are_named(name: Seq<char>)
    ensures
        null_problem(name) == name + " is null"@,
{
    reveal_strlit("");
    assert(null_problem(name) =~= name + " is null"@);
}

/// Options are given exactly if there are none, or if both lists are there and hold texts only. They
/// are then the texts in their order.
pub proof fn options_are_given_in_their_order(
    len: usize,
    keys_null: bool,
    values_null: bool,
    raw: Seq<(RawText, RawText)>,
    i: int,
)
    ensures
        given_options(len, keys_null, values_null, raw) is Ok <==> len == 0 || (!keys_null
            && !values_null && forall|k: int|
            0 <= k < raw.len() ==> (#[trigger] raw[k]).0 is Text && raw[k].1 is Text),
        given_options(len, keys_null, values_null, raw) matches Ok(pairs) ==> {
            &&& len == 0 ==> pairs.len() == 0
            &&& len > 0 ==> pairs.len() == raw.len()
            &&& len > 0 && 0 <= i < raw.len() ==> pairs[i] == (
                raw[i].0->Text_0@,
                raw[i].1->Text_0@,
            )
        },
{
    pairs_keep_their_places(raw, "option key"@, "option value"@, raw.len() as int);
}

/// Fields are given exactly if there are some, both lists are there and hold texts only. They are
/// then the texts in their order.
pub proof fn fields_are_given_in_their_order(
    len: usize,
    names_null: bool,
    texts_null: bool,
    raw: Seq<(RawText, RawText)>,
    i: int,
)
    ensures
        given_fields(len, names_null, texts_null, raw) is Ok <==> len > 0 && !names_null
            && !texts_null && forall|k: int|
            0 <= k < raw.len() ==> (#[trigger] raw[k]).0 is Text && raw[k].1 is Text,
        given_fields(len, names_null, texts_null, raw) matches Ok(pairs) ==> {
            &&& pairs.len() == raw.len()
            &&& 0 <= i < raw.len() ==> pairs[i] == (raw[i].0->Text_0@, raw[i].1->Text_0@)
        },
{
    pairs_keep_their_places(raw, "field name"@, "field text"@, raw.len() as int);
}

/// The text of a query is given as it is, if there is a place for the number of results.
pub proof fn queries_are_given_as_they_are(result_len_null: bool, query: RawText)
    ensures
        given_query(result_len_null, query) is Ok <==> !result_len_null && query is Text,
        given_query(result_len_null, query) matches Ok(text) ==> text == query->Text_0@,
{
}

/// A read that failed is described by its place and its length, and results without a place by how
/// many there are and how many there could be.
pub proof fn failures_are_described(offset: u64, length: usize, result_len: usize, capacity: usize)
    ensures
        read_problem(offset, length) == "pread callback failed at offset "@ + decimal(
            offset as nat,
        ) + (" length "@ + decimal(length as nat)),
        result_len > capacity ==> delivery_problem(result_len, capacity, false, false) == Some(
            "result capacity "@ + decimal(capacity as nat) + (" is smaller than result length "@
                + decimal(result_len as nat)),
        ),
{
    reveal_strlit("");
    assert(joined(" length "@, decimal(length as nat), ""@) =~= " length "@ + decimal(
        length as nat,
    ));
    assert(joined(" is smaller than result length "@, decimal(result_len as nat), ""@)
        =~= " is smaller than result length "@ + decimal(result_len as nat));
}

/// A check agrees with the model if it fails exactly where the model does, with its message, and so
/// do the pairs that are read.
pub proof fn outcomes_agree_with_the_model(
    r: Result<(), String>,
    problem: Option<Seq<char>>,
    pairs: Result<Vec<(String, String)>, String>,
    expected: Result<Seq<(Seq<char>, Seq<char>)>, Seq<char>>,
)
    requires
        check_is(r, problem),
        pairs_are(pairs, expected),
    ensures
        r is Ok <==> problem is None,
        r matches Err(message) ==> problem == Some(message@),
        pairs is Ok <==> expected is Ok,
        pairs matches Ok(given) ==> entry_views(given@) == expected->Ok_0,
        pairs matches Err(message) ==> message@ == expected->Err_0,
{
}

} // verus!

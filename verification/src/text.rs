//! Text building blocks: comparing, trimming, splitting and rewriting strings, and decimal numbers.
//!
//! A string is modelled by the sequence of its characters (`Seq<char>`).
use vstd::prelude::*;
use vstd::utf8::encode_utf8;
use vstd::utf8::is_ascii_chars;

verus! {

/// The characters with the Unicode property `White_Space`.
pub open spec fn is_white_space(c: char) -> bool {
    let n = c as u32;
    ||| 0x09 <= n <= 0x0d
    ||| n == 0x20
    ||| n == 0x85
    ||| n == 0xa0
    ||| n == 0x1680
    ||| 0x2000 <= n <= 0x200a
    ||| n == 0x2028
    ||| n == 0x2029
    ||| n == 0x202f
    ||| n == 0x205f
    ||| n == 0x3000
}

/// `s` from its first character that is no white space on.
pub open spec fn without_leading_space(s: Seq<char>) -> Seq<char>
    decreases s.len(),
{
    if s.len() > 0 && is_white_space(s[0]) {
        without_leading_space(s.skip(1))
    } else {
        s
    }
}

/// `s` up to its last character that is no white space.
pub open spec fn without_trailing_space(s: Seq<char>) -> Seq<char>
    decreases s.len(),
{
    if s.len() > 0 && is_white_space(s.last()) {
        without_trailing_space(s.drop_last())
    } else {
        s
    }
}

/// `s` without white space at either end.
pub open spec fn trimmed(s: Seq<char>) -> Seq<char> {
    without_trailing_space(without_leading_space(s))
}

/// `str::trim` removes the white space, in the Unicode sense, at both ends.
pub assume_specification[ str::trim ](s: &str) -> (r: &str)
    ensures
        r@ == trimmed(s@),
;

/// The lower-case letter of an ASCII upper-case letter; any other character as it is.
pub open spec fn ascii_lowercase(c: char) -> char {
    if 'A' <= c <= 'Z' {
        ((c as u32) + 32) as char
    } else {
        c
    }
}

/// What `str::to_lowercase` makes of a text that is not all ASCII.
pub uninterp spec fn lowercased_beyond_ascii(s: Seq<char>) -> Seq<char>;

/// A text in lower case.
pub open spec fn lowercased(s: Seq<char>) -> Seq<char> {
    if is_ascii_chars(s) {
        s.map_values(|c: char| ascii_lowercase(c))
    } else {
        lowercased_beyond_ascii(s)
    }
}

/// `str::to_lowercase` maps a text to its Unicode lower case, which depends on the text alone. Of an
/// ASCII text it changes the letters `A` to `Z` only.
pub assume_specification[ str::to_lowercase ](s: &str) -> (r: String)
    ensures
        r@ == (if is_ascii_chars(s@) {
            s@.map_values(|c: char| ascii_lowercase(c))
        } else {
            lowercased_beyond_ascii(s@)
        }),
;

/// `String::push` appends one character.
pub assume_specification[ String::push ](s: &mut String, c: char)
    ensures
        final(s)@ == old(s)@.push(c),
;

/// Whether the two texts hold the same characters.
pub fn same_text(a: &str, b: &str) -> (r: bool)
    ensures
        r == (a@ == b@),
{
    let x = a.as_bytes();
    let y = b.as_bytes();
    proof {
        vstd::utf8::encode_utf8_decode_utf8(a@);
        vstd::utf8::encode_utf8_decode_utf8(b@);
    }
    if x.len() != y.len() {
        return false;
    }
    let mut i: usize = 0;
    while i < x.len()
        invariant
            x@ == encode_utf8(a@),
            y@ == encode_utf8(b@),
            x@.len() == y@.len(),
            i <= x@.len(),
            forall|k: int| 0 <= k < i ==> x@[k] == y@[k],
        decreases x@.len() - i,
    {
        if x[i] != y[i] {
            return false;
        }
        i = i + 1;
    }
    assert(x@ =~= y@);
    true
}

/// Whether `text` is one of the `names`.
pub fn contains_text(names: &Vec<String>, text: &str) -> (r: bool)
    ensures
        r == text_views(names@).contains(text@),
{
    let mut i: usize = 0;
    while i < names.len()
        invariant
            i <= names.len(),
            forall|k: int| 0 <= k < i ==> text_views(names@)[k] != text@,
        decreases names.len() - i,
    {
        if same_text(names[i].as_str(), text) {
            assert(text_views(names@)[i as int] == text@);
            return true;
        }
        i = i + 1;
    }
    false
}

/// What tells short names apart: the length, the first character and the one in the middle.
pub open spec fn mark(name: Seq<char>) -> (nat, char, char) {
    (name.len(), name[0], name[name.len() as int / 2])
}

/// The characters of each string of a list.
pub open spec fn text_views(s: Seq<String>) -> Seq<Seq<char>> {
    s.map_values(|t: String| t@)
}

/// `text` without `prefix`, where `text` begins with it.
pub open spec fn stripped(text: Seq<char>, prefix: Seq<char>) -> Option<Seq<char>> {
    if prefix.is_prefix_of(text) {
        Some(text.skip(prefix.len() as int))
    } else {
        None
    }
}

/// The rest of `text` behind `prefix`, if `text` begins with it.
pub fn strip_prefix<'a>(text: &'a str, prefix: &str) -> (r: Option<&'a str>)
    ensures
        match r {
            Some(rest) => stripped(text@, prefix@) == Some(rest@),
            None => stripped(text@, prefix@) is None,
        },
{
    let n: usize = prefix.unicode_len();
    let total: usize = text.unicode_len();
    if total < n {
        return None;
    }
    let head = text.substring_char(0, n);
    if same_text(head, prefix) {
        assert(prefix@.is_prefix_of(text@));
        let rest = text.substring_char(n, total);
        assert(rest@ =~= text@.skip(prefix@.len() as int));
        Some(rest)
    } else {
        proof {
            if prefix@.is_prefix_of(text@) {
                assert(head@ =~= prefix@);
            }
        }
        None
    }
}

/// `s` with every `c` replaced by the characters `by`.
pub open spec fn replaced(s: Seq<char>, c: char, by: Seq<char>) -> Seq<char>
    decreases s.len(),
{
    if s.len() == 0 {
        s
    } else if s.last() == c {
        replaced(s.drop_last(), c, by) + by
    } else {
        replaced(s.drop_last(), c, by).push(s.last())
    }
}

/// `s` with every `c` replaced by `by`.
pub fn replace_char(s: &str, c: char, by: &str) -> (r: String)
    ensures
        r@ == replaced(s@, c, by@),
{
    let mut out = String::new();
    for x in it: s.chars()
        invariant
            it.seq() == s@,
            out@ == replaced(s@.take(it.index()), c, by@),
    {
        proof {
            let k = it.index();
            assert(s@.take(k + 1).drop_last() =~= s@.take(k));
            assert(s@.take(k + 1).last() == x);
        }
        if x == c {
            out.append(by);
        } else {
            out.push(x);
        }
    }
    assert(s@.take(s@.len() as int) =~= s@);
    out
}

/// The pieces of `s` between the separators `sep`, one more than there are separators.
pub open spec fn split_pieces(s: Seq<char>, sep: char) -> Seq<Seq<char>>
    decreases s.len(),
{
    if s.len() == 0 {
        seq![Seq::<char>::empty()]
    } else {
        let before = split_pieces(s.drop_last(), sep);
        if s.last() == sep {
            before.push(Seq::empty())
        } else {
            before.drop_last().push(before.last().push(s.last()))
        }
    }
}

/// The trimmed pieces of `s` between the separators `sep`, without the empty ones.
pub open spec fn listed_words(s: Seq<char>, sep: char) -> Seq<Seq<char>> {
    split_pieces(s, sep).map_values(|p: Seq<char>| trimmed(p)).filter(|w: Seq<char>| w.len() > 0)
}

/// The pieces of `s` between the separators `sep`.
pub fn split_text(s: &str, sep: char) -> (r: Vec<String>)
    ensures
        text_views(r@) == split_pieces(s@, sep),
{
    let mut out: Vec<String> = Vec::new();
    let mut piece = String::new();
    for x in it: s.chars()
        invariant
            it.seq() == s@,
            text_views(out@).push(piece@) == split_pieces(s@.take(it.index()), sep),
    {
        proof {
            let k = it.index();
            assert(s@.take(k + 1).drop_last() =~= s@.take(k));
            assert(s@.take(k + 1).last() == x);
            assert(text_views(out@).push(piece@).drop_last() =~= text_views(out@));
        }
        if x == sep {
            let ghost before = out@;
            out.push(piece);
            assert(text_views(out@) =~= text_views(before).push(piece@));
            piece = String::new();
            assert(piece@ =~= Seq::<char>::empty());
        } else {
            piece.push(x);
        }
    }
    assert(s@.take(s@.len() as int) =~= s@);
    let ghost before = out@;
    out.push(piece);
    assert(text_views(out@) =~= text_views(before).push(piece@));
    out
}

/// The words that `s` lists between the separators `sep`: trimmed, the empty ones left out.
pub fn list_words(s: &str, sep: char) -> (r: Vec<String>)
    ensures
        text_views(r@) == listed_words(s@, sep),
{
    let pieces = split_text(s, sep);
    let ghost words = text_views(pieces@).map_values(|p: Seq<char>| trimmed(p));
    let mut out: Vec<String> = Vec::new();
    let mut i: usize = 0;
    assert(words.take(0).filter(|w: Seq<char>| w.len() > 0) =~= Seq::<Seq<char>>::empty()) by {
        reveal(Seq::filter);
    }
    while i < pieces.len()
        invariant
            i <= pieces.len(),
            words == text_views(pieces@).map_values(|p: Seq<char>| trimmed(p)),
            text_views(out@) == words.take(i as int).filter(|w: Seq<char>| w.len() > 0),
        decreases pieces.len() - i,
    {
        let word = pieces[i].as_str().trim();
        proof {
            assert(words.take(i + 1).drop_last() =~= words.take(i as int));
            assert(words.take(i + 1).last() == word@);
            reveal(Seq::filter);
        }
        if !word.is_empty() {
            let ghost before = out@;
            out.push(word.to_owned());
            assert(text_views(out@) =~= text_views(before).push(word@));
        }
        i = i + 1;
    }
    assert(words.take(words.len() as int) =~= words);
    out
}

/// The decimal digit of a number below ten.
pub open spec fn digit_char(d: nat) -> char {
    (('0' as u32) + d) as char
}

/// The decimal digits of `n`, without leading zeros.
pub open spec fn decimal(n: nat) -> Seq<char>
    decreases n,
{
    if n < 10 {
        seq![digit_char(n)]
    } else {
        decimal(n / 10).push(digit_char(n % 10))
    }
}

/// `n` in decimal.
pub fn decimal_text(n: u64) -> (r: String)
    ensures
        r@ == decimal(n as nat),
    decreases n,
{
    let digit = (48 + (n % 10) as u8) as char;
    let mut out = if n < 10 {
        String::new()
    } else {
        decimal_text(n / 10)
    };
    out.push(digit);
    assert(n < 10 ==> out@ =~= seq![digit_char(n as nat)]);
    out
}

/// Whether `c` is an ASCII decimal digit.
pub open spec fn is_digit(c: char) -> bool {
    '0' <= c <= '9'
}

/// Whether `s` holds digits only.
pub open spec fn all_digits(s: Seq<char>) -> bool {
    forall|i: int| 0 <= i < s.len() ==> is_digit(#[trigger] s[i])
}

/// The number that the digits `s` write in decimal.
pub open spec fn digits_value(s: Seq<char>) -> nat
    decreases s.len(),
{
    if s.len() == 0 {
        0
    } else {
        digits_value(s.drop_last()) * 10 + ((s.last() as u32) - ('0' as u32)) as nat
    }
}

/// The number that `s` writes: decimal digits, one at least, behind an optional plus sign.
pub open spec fn unsigned_number(s: Seq<char>) -> Option<nat> {
    let digits = if s.len() > 0 && s[0] == '+' {
        s.skip(1)
    } else {
        s
    };
    if digits.len() > 0 && all_digits(digits) {
        Some(digits_value(digits))
    } else {
        None
    }
}

/// Reads an unsigned number; `None` where `s` writes none, or one that is too large for a `usize`.
pub fn parse_unsigned(s: &str) -> (r: Option<usize>)
    ensures
        match unsigned_number(s@) {
            Some(n) => if n <= usize::MAX {
                r == Some(n as usize)
            } else {
                r is None
            },
            None => r is None,
        },
{
    let total: usize = s.unicode_len();
    let digits = if total > 0 && s.get_char(0) == '+' {
        let rest = s.substring_char(1, total);
        assert(rest@ =~= s@.skip(1));
        rest
    } else {
        s
    };
    if digits.is_empty() {
        return None;
    }
    let mut value: usize = 0;
    let mut fits = true;
    for c in it: digits.chars()
        invariant
            it.seq() == digits@,
            forall|i: int| 0 <= i < it.index() ==> is_digit(digits@[i]),
            fits ==> value == digits_value(digits@.take(it.index())),
            !fits ==> digits_value(digits@.take(it.index())) > usize::MAX,
            digits@.len() > 0,
            all_digits(digits@) ==> unsigned_number(s@) == Some(digits_value(digits@)),
            !all_digits(digits@) ==> unsigned_number(s@) is None,
    {
        let ghost k = it.index();
        proof {
            assert(digits@[k] == c);
        }
        if !('0' <= c && c <= '9') {
            assert(!is_digit(digits@[k]));
            return None;
        }
        let d: usize = (c as u32 - '0' as u32) as usize;
        proof {
            assert(digits@.take(k + 1).drop_last() =~= digits@.take(k));
            assert(digits@.take(k + 1).last() == c);
        }
        if fits {
            match value.checked_mul(10) {
                Some(tens) => {
                    match tens.checked_add(d) {
                        Some(next) => {
                            value = next;
                        },
                        None => {
                            fits = false;
                        },
                    }
                },
                None => {
                    fits = false;
                },
            }
        }
    }
    assert(digits@.take(digits@.len() as int) =~= digits@);
    if fits {
        Some(value)
    } else {
        None
    }
}

/// Reading back what `decimal` wrote gives the number again.
pub proof fn decimal_reads_back(n: nat)
    ensures
        unsigned_number(decimal(n)) == Some(n),
{
    decimal_is_digits(n);
    assert(decimal(n)[0] != '+');
}

proof fn decimal_is_digits(n: nat)
    ensures
        decimal(n).len() > 0,
        all_digits(decimal(n)),
        digits_value(decimal(n)) == n,
    decreases n,
{
    if n >= 10 {
        decimal_is_digits(n / 10);
        assert(decimal(n).drop_last() =~= decimal(n / 10));
    } else {
        assert(decimal(n).drop_last() =~= Seq::<char>::empty());
        assert(digits_value(decimal(n).drop_last()) == 0);
    }
}

proof fn pieces_of_both(a: Seq<char>, b: Seq<char>, sep: char)
    ensures
        split_pieces(a + seq![sep] + b, sep) == split_pieces(a, sep) + split_pieces(b, sep),
        split_pieces(b, sep).len() > 0,
    decreases b.len(),
{
    let all = a + seq![sep] + b;
    if b.len() == 0 {
        assert(all.drop_last() =~= a);
        assert(all.last() == sep);
        assert(split_pieces(all, sep) =~= split_pieces(a, sep) + split_pieces(b, sep));
    } else {
        let c = b.drop_last();
        pieces_of_both(a, c, sep);
        assert(all.drop_last() =~= a + seq![sep] + c);
        assert(all.last() == b.last());
        let left = split_pieces(a, sep);
        let right = split_pieces(c, sep);
        assert((left + right).drop_last() =~= left + right.drop_last());
        assert((left + right).last() == right.last());
        assert(split_pieces(all, sep) =~= left + split_pieces(b, sep));
    }
}

proof fn one_piece(a: Seq<char>, sep: char)
    requires
        !a.contains(sep),
    ensures
        split_pieces(a, sep) == seq![a],
    decreases a.len(),
{
    if a.len() == 0 {
        assert(a =~= Seq::<char>::empty());
    } else {
        let b = a.drop_last();
        assert(!b.contains(sep)) by {
            if b.contains(sep) {
                let k = choose|k: int| 0 <= k < b.len() && b[k] == sep;
                assert(a[k] == sep);
            }
        }
        one_piece(b, sep);
        assert(a[a.len() - 1] == a.last());
        assert(b.push(a.last()) =~= a);
        assert(split_pieces(a, sep) =~= seq![a]);
    }
}

proof fn filter_of_both(
    a: Seq<Seq<char>>,
    b: Seq<Seq<char>>,
    p: spec_fn(Seq<char>) -> bool,
)
    ensures
        (a + b).filter(p) == a.filter(p) + b.filter(p),
    decreases b.len(),
{
    reveal(Seq::filter);
    if b.len() == 0 {
        assert(a + b =~= a);
        assert(a.filter(p) + b.filter(p) =~= a.filter(p));
    } else {
        filter_of_both(a, b.drop_last(), p);
        assert((a + b).drop_last() =~= a + b.drop_last());
        assert((a + b).filter(p) =~= a.filter(p) + b.filter(p));
    }
}

/// What is listed before a separator and what is listed behind it is listed together, in this order.
pub proof fn lists_are_joined_by_the_separator(a: Seq<char>, b: Seq<char>, sep: char)
    ensures
        listed_words(a + seq![sep] + b, sep) == listed_words(a, sep) + listed_words(b, sep),
{
    pieces_of_both(a, b, sep);
    let f = |p: Seq<char>| trimmed(p);
    let keep = |w: Seq<char>| w.len() > 0;
    let left = split_pieces(a, sep);
    let right = split_pieces(b, sep);
    assert((left + right).map_values(f) =~= left.map_values(f) + right.map_values(f));
    filter_of_both(left.map_values(f), right.map_values(f), keep);
}

/// Without a separator the text without the space around it is listed, unless nothing is left.
pub proof fn single_word_is_listed(a: Seq<char>, sep: char)
    requires
        !a.contains(sep),
    ensures
        listed_words(a, sep) == (if trimmed(a).len() > 0 {
            seq![trimmed(a)]
        } else {
            Seq::<Seq<char>>::empty()
        }),
{
    one_piece(a, sep);
    let f = |p: Seq<char>| trimmed(p);
    let one = seq![a].map_values(f);
    reveal(Seq::filter);
    assert(one.drop_last() =~= Seq::<Seq<char>>::empty());
    assert(one.last() == trimmed(a));
    assert(one.drop_last().filter(|w: Seq<char>| w.len() > 0) =~= Seq::<Seq<char>>::empty());
    assert(Seq::<Seq<char>>::empty().push(trimmed(a)) =~= seq![trimmed(a)]);
}

/// A character is replaced wherever it stands, and every other character is kept in its place.
pub proof fn replacing_goes_character_by_character(s: Seq<char>, x: char, c: char, by: Seq<char>)
    ensures
        replaced(Seq::empty(), c, by) == Seq::<char>::empty(),
        replaced(s.push(x), c, by) == replaced(s, c, by) + (if x == c {
            by
        } else {
            seq![x]
        }),
{
    assert(s.push(x).drop_last() =~= s);
    assert(replaced(s, c, by).push(x) =~= replaced(s, c, by) + seq![x]);
    assert(replaced(Seq::empty(), c, by) =~= Seq::<char>::empty());
}

/// A number is read digit by digit. Anything but a digit behind a number makes it none.
pub proof fn numbers_are_read_digit_by_digit(s: Seq<char>, c: char)
    requires
        unsigned_number(s) is Some,
    ensures
        '0' <= c <= '9' ==> unsigned_number(s.push(c)) == Some(
            (unsigned_number(s)->Some_0 * 10 + ((c as u32) - ('0' as u32))) as nat,
        ),
        !('0' <= c <= '9') ==> unsigned_number(s.push(c)) is None,
{
    let plus = s.len() > 0 && s[0] == '+';
    let digits = if plus {
        s.skip(1)
    } else {
        s
    };
    let more = if plus {
        s.push(c).skip(1)
    } else {
        s.push(c)
    };
    assert(more =~= digits.push(c));
    assert(more.drop_last() =~= digits);
    assert(more[digits.len() as int] == c);
    if '0' <= c <= '9' {
        assert forall|i: int| 0 <= i < more.len() implies is_digit(#[trigger] more[i]) by {
            if i < digits.len() {
                assert(is_digit(digits[i]));
            }
        }
    } else {
        assert(!is_digit(more[digits.len() as int]));
    }
}

/// One digit is a number, with a plus sign before it or without. Nothing at all is none.
pub proof fn one_digit_is_a_number(c: char)
    requires
        '0' <= c <= '9',
    ensures
        unsigned_number(seq![c]) == Some(((c as u32) - ('0' as u32)) as nat),
        unsigned_number(seq!['+', c]) == Some(((c as u32) - ('0' as u32)) as nat),
        unsigned_number(Seq::empty()) is None,
        unsigned_number(seq!['+']) is None,
{
    assert(seq!['+', c].skip(1) =~= seq![c]);
    assert(seq![c].drop_last() =~= Seq::<char>::empty());
    assert(digits_value(Seq::empty()) == 0);
    assert(seq!['+'].skip(1) =~= Seq::<char>::empty());
}

/// A number is written without a leading zero, unless it is zero.
pub proof fn decimal_has_no_leading_zero(n: nat)
    ensures
        decimal(n).len() > 0,
        n > 0 ==> decimal(n)[0] != '0',
    decreases n,
{
    if n >= 10 {
        decimal_has_no_leading_zero(n / 10);
    }
}

} // verus!

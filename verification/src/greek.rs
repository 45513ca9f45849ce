//! The words on which the Greek stemmer of rust-stemmers panics.
//!
//! The stemmer folds the letters of a word and then takes endings off it, step by step. Two of its
//! steps go on with the bounds of a part of the word that is no longer there:
//!
//! - Where `ισα` is left of a word when an ending such as `ισε` is taken off, the ending is replaced
//!   although it is gone.
//! - Where `ετε` is taken off and a joint of three or more letters, such as `αιρ` or `ταθ`, is put
//!   back in front of `ετ`, what stands before the joint is looked for up to a place that lies as far
//!   behind the joint as the joint is long.
//!
//! In both cases the word that is left when the step begins is the beginning of the folded word, and
//! what followed it was made of endings that earlier steps take off.
use vstd::prelude::*;

verus! {

/// The letter that the stemmer folds a character to: small and without accents. As the stemmer has
/// it, `ϊ` and `ΐ` become `η`.
pub open spec fn greek_letter(c: char) -> char {
    match c {
        'Ά' | 'Α' | 'ά' => 'α',
        'Β' => 'β',
        'Γ' => 'γ',
        'Δ' => 'δ',
        'Έ' | 'Ε' | 'έ' => 'ε',
        'Ζ' => 'ζ',
        'Ή' | 'ΐ' | 'Η' | 'ή' | 'ϊ' => 'η',
        'Θ' => 'θ',
        'Ί' | 'Ι' | 'Ϊ' | 'ί' => 'ι',
        'Κ' => 'κ',
        'Λ' => 'λ',
        'Μ' => 'μ',
        'Ν' => 'ν',
        'Ξ' => 'ξ',
        'Ό' | 'Ο' | 'ό' => 'ο',
        'Π' => 'π',
        'Ρ' => 'ρ',
        'Σ' | 'ς' => 'σ',
        'Τ' => 'τ',
        'Ύ' | 'Υ' | 'Ϋ' | 'ΰ' | 'ϋ' | 'ύ' => 'υ',
        'Φ' => 'φ',
        'Χ' => 'χ',
        'Ψ' => 'ψ',
        'Ώ' | 'Ω' | 'ώ' => 'ω',
        _ => c,
    }
}

fn fold_letter(c: char) -> (r: char)
    ensures
        r == greek_letter(c),
{
    match c {
        'Ά' | 'Α' | 'ά' => 'α',
        'Β' => 'β',
        'Γ' => 'γ',
        'Δ' => 'δ',
        'Έ' | 'Ε' | 'έ' => 'ε',
        'Ζ' => 'ζ',
        'Ή' | 'ΐ' | 'Η' | 'ή' | 'ϊ' => 'η',
        'Θ' => 'θ',
        'Ί' | 'Ι' | 'Ϊ' | 'ί' => 'ι',
        'Κ' => 'κ',
        'Λ' => 'λ',
        'Μ' => 'μ',
        'Ν' => 'ν',
        'Ξ' => 'ξ',
        'Ό' | 'Ο' | 'ό' => 'ο',
        'Π' => 'π',
        'Ρ' => 'ρ',
        'Σ' | 'ς' => 'σ',
        'Τ' => 'τ',
        'Ύ' | 'Υ' | 'Ϋ' | 'ΰ' | 'ϋ' | 'ύ' => 'υ',
        'Φ' => 'φ',
        'Χ' => 'χ',
        'Ψ' => 'ψ',
        'Ώ' | 'Ω' | 'ώ' => 'ω',
        _ => c,
    }
}

/// A word with its letters folded.
pub open spec fn greek_folded(word: Seq<char>) -> Seq<char> {
    word.map_values(|c: char| greek_letter(c))
}

fn fold_word(word: &str) -> (r: Vec<char>)
    ensures
        r@ == greek_folded(word@),
{
    let mut out: Vec<char> = Vec::new();
    for c in it: word.chars()
        invariant
            it.seq() == word@,
            out@ == greek_folded(word@.take(it.index())),
    {
        let ghost before = out@;
        out.push(fold_letter(c));
        proof {
            let k = it.index();
            assert(word@.take(k + 1) =~= word@.take(k).push(c));
            assert(greek_folded(word@.take(k + 1)) =~= before.push(greek_letter(c)));
        }
    }
    assert(word@.take(word@.len() as int) =~= word@);
    out
}

/// The texts by their characters.
pub open spec fn str_views(texts: Seq<&str>) -> Seq<Seq<char>> {
    texts.map_values(|t: &str| t@)
}

/// The endings that the first of the two steps takes off.
pub open spec fn greek_pasts() -> Seq<Seq<char>> {
    seq![
        "ισα"@, "ισαμε"@, "ισαν"@, "ισανε"@, "ισατε"@, "ισε"@, "ισεσ"@,
    ]
}

fn greek_pasts_list() -> (r: Vec<&'static str>)
    ensures
        str_views(r@) == greek_pasts(),
{
    let r = vec![
        "ισα", "ισαμε", "ισαν", "ισανε", "ισατε", "ισε", "ισεσ",
    ];
    assert(str_views(r@) =~= greek_pasts());
    r
}

/// What the second of the two steps looks for before a joint.
pub open spec fn greek_stems() -> Seq<Seq<char>> {
    seq![
        "αβαρ"@, "αβρ"@, "αδ"@, "αθ"@, "αν"@, "απλ"@, "βαρον"@, "βεν"@, "δ"@, "εμ"@, "εναρ"@, "θ"@,
        "θαρρ"@, "κοπ"@, "μπορ"@, "νιφ"@, "ντρ"@, "παγ"@, "παρακαλ"@, "σερπ"@, "σκ"@, "σκελ"@,
        "συρφ"@, "τοκ"@, "υ"@,
    ]
}

fn greek_stems_list() -> (r: Vec<&'static str>)
    ensures
        str_views(r@) == greek_stems(),
{
    let r = vec![
        "αβαρ", "αβρ", "αδ", "αθ", "αν", "απλ", "βαρον", "βεν", "δ", "εμ", "εναρ", "θ", "θαρρ",
        "κοπ", "μπορ", "νιφ", "ντρ", "παγ", "παρακαλ", "σερπ", "σκ", "σκελ", "συρφ", "τοκ", "υ",
    ];
    assert(str_views(r@) =~= greek_stems());
    r
}

/// The joints of three or more letters that the second of the two steps puts back.
pub open spec fn greek_joints() -> Seq<Seq<char>> {
    seq![
        "αιν"@, "αιρ"@, "αρκ"@, "βαρ"@, "βολ"@, "διαθ"@, "εκθ"@, "ενδ"@, "ενθ"@, "ευθ"@, "ευρ"@,
        "καθ"@, "νετ"@, "πον"@, "πυρ"@, "ραθ"@, "ροθ"@, "ρον"@, "συν"@, "συνδ"@, "συνθ"@, "ταθ"@,
        "τιθ"@, "υπερθ"@, "φορ"@, "χωρ"@, "ωφελ"@,
    ]
}

fn greek_joints_list() -> (r: Vec<&'static str>)
    ensures
        str_views(r@) == greek_joints(),
{
    let r = vec![
        "αιν", "αιρ", "αρκ", "βαρ", "βολ", "διαθ", "εκθ", "ενδ", "ενθ", "ευθ", "ευρ", "καθ", "νετ",
        "πον", "πυρ", "ραθ", "ροθ", "ρον", "συν", "συνδ", "συνθ", "ταθ", "τιθ", "υπερθ", "φορ",
        "χωρ", "ωφελ",
    ];
    assert(str_views(r@) =~= greek_joints());
    r
}

/// The endings that are taken off before or in the second step. One that ends with another of them
/// is left out.
pub open spec fn greek_endings() -> Seq<Seq<char>> {
    seq![
        "αδεσ"@, "αδων"@, "ακι"@, "αμε"@, "ανε"@, "εδεσ"@, "εδων"@, "ετε"@, "εων"@, "εωσ"@, "ια"@,
        "ιδιο"@, "ιζα"@, "ιζαν"@, "ιζατε"@, "ιζε"@, "ιζει"@, "ιζεισ"@, "ιζεσ"@, "ιζουμε"@,
        "ιζουν"@, "ιζουνε"@, "ιζω"@, "ικα"@, "ικο"@, "ικου"@, "ικων"@, "ιου"@, "ισα"@, "ισαν"@,
        "ισατε"@, "ισε"@, "ισει"@, "ισεισ"@, "ισεσ"@, "ισκε"@, "ισκο"@, "ισκοσ"@, "ισκου"@,
        "ισμο"@, "ισμοι"@, "ισμοσ"@, "ισμου"@, "ισμουσ"@, "ισμων"@, "ισουμε"@, "ισουν"@, "ισουνε"@,
        "ιστα"@, "ιστε"@, "ιστεσ"@, "ιστη"@, "ιστησ"@, "ιστο"@, "ιστοι"@, "ιστοσ"@, "ιστου"@,
        "ιστουσ"@, "ιστων"@, "ισω"@, "ιτσα"@, "ιτσασ"@, "ιτσεσ"@, "ιτσων"@, "ιων"@, "ουδεσ"@,
        "ουδων"@, "ωθηκα"@, "ωθηκαν"@, "ωθηκατε"@, "ωθηκε"@, "ωθηκεσ"@,
    ]
}

fn greek_endings_list() -> (r: Vec<&'static str>)
    ensures
        str_views(r@) == greek_endings(),
{
    let r = vec![
        "αδεσ", "αδων", "ακι", "αμε", "ανε", "εδεσ", "εδων", "ετε", "εων", "εωσ", "ια", "ιδιο",
        "ιζα", "ιζαν", "ιζατε", "ιζε", "ιζει", "ιζεισ", "ιζεσ", "ιζουμε", "ιζουν", "ιζουνε", "ιζω",
        "ικα", "ικο", "ικου", "ικων", "ιου", "ισα", "ισαν", "ισατε", "ισε", "ισει", "ισεισ",
        "ισεσ", "ισκε", "ισκο", "ισκοσ", "ισκου", "ισμο", "ισμοι", "ισμοσ", "ισμου", "ισμουσ",
        "ισμων", "ισουμε", "ισουν", "ισουνε", "ιστα", "ιστε", "ιστεσ", "ιστη", "ιστησ", "ιστο",
        "ιστοι", "ιστοσ", "ιστου", "ιστουσ", "ιστων", "ισω", "ιτσα", "ιτσασ", "ιτσεσ", "ιτσων",
        "ιων", "ουδεσ", "ουδων", "ωθηκα", "ωθηκαν", "ωθηκατε", "ωθηκε", "ωθηκεσ",
    ];
    assert(str_views(r@) =~= greek_endings());
    r
}

/// Whether the part stands in the word at this place.
pub open spec fn stands_at(word: Seq<char>, at: int, part: Seq<char>) -> bool {
    0 <= at && at + part.len() <= word.len() && word.subrange(at, at + part.len()) == part
}

/// The place behind the part, if it stands at this place.
fn behind(word: &Vec<char>, at: usize, part: &str) -> (r: Option<usize>)
    requires
        at <= word@.len(),
    ensures
        match r {
            Some(next) => stands_at(word@, at as int, part@) && next == at + part@.len(),
            None => !stands_at(word@, at as int, part@),
        },
{
    let total: usize = word.len();
    if total - at < part.unicode_len() {
        return None;
    }
    let mut k: usize = at;
    for c in it: part.chars()
        invariant
            it.seq() == part@,
            at + part@.len() <= word@.len(),
            total == word@.len(),
            k == at + it.index(),
            forall|j: int| 0 <= j < it.index() ==> word@[at + j] == part@[j],
    {
        if word[k] != c {
            assert(word@.subrange(at as int, at + part@.len())[it.index()] != part@[it.index()]);
            return None;
        }
        k = k + 1;
    }
    assert(word@.subrange(at as int, at + part@.len()) =~= part@);
    Some(k)
}

/// Whether nothing follows in the word from this place on, or something that ends with an ending
/// that is taken off.
pub open spec fn rest_goes(word: Seq<char>, at: int) -> bool {
    at == word.len() || exists|k: int|
        0 <= k < greek_endings().len() && at + (#[trigger] greek_endings()[k]).len() <= word.len()
            && stands_at(word, word.len() - greek_endings()[k].len(), greek_endings()[k])
}

fn rest_can_go(word: &Vec<char>, at: usize) -> (r: bool)
    requires
        at <= word@.len(),
    ensures
        r == rest_goes(word@, at as int),
{
    if at == word.len() {
        return true;
    }
    let endings = greek_endings_list();
    assert(str_views(endings@).len() == endings@.len());
    let mut k: usize = 0;
    while k < endings.len()
        invariant
            at < word@.len(),
            k <= endings@.len(),
            str_views(endings@) == greek_endings(),
            endings@.len() == greek_endings().len(),
            forall|j: int|
                0 <= j < k ==> !(at + (#[trigger] greek_endings()[j]).len() <= word@.len()
                    && stands_at(
                    word@,
                    word@.len() - greek_endings()[j].len(),
                    greek_endings()[j],
                )),
        decreases endings.len() - k,
    {
        let ending = endings[k];
        assert(greek_endings()[k as int] == ending@);
        let count: usize = ending.unicode_len();
        if word.len() - at >= count && behind(word, word.len() - count, ending).is_some() {
            return true;
        }
        k = k + 1;
    }
    false
}

/// Whether the first of the two steps can be left with `ισα` where it took an ending off.
pub open spec fn breaks_at_past(word: Seq<char>) -> bool {
    stands_at(word, 0, "ισα"@) && exists|k: int|
        0 <= k < greek_pasts().len() && stands_at(
            word,
            "ισα"@.len() as int,
            #[trigger] greek_pasts()[k],
        )
            && rest_goes(
            word,
            "ισα"@.len() as int + greek_pasts()[k].len(),
        )
}

/// Whether the second of the two steps can find a joint with `ετε` behind it at this place, and
/// nothing else behind that.
pub open spec fn breaks_behind(word: Seq<char>, at: int) -> bool {
    exists|k: int|
        0 <= k < greek_joints().len() && stands_at(word, at, #[trigger] greek_joints()[k])
            && stands_at(word, at + greek_joints()[k].len(), "ετε"@) && rest_goes(
            word,
            at + greek_joints()[k].len() + "ετε"@.len(),
        )
}

/// Whether the second of the two steps can find a joint behind one of its stems.
pub open spec fn breaks_at_joint(word: Seq<char>) -> bool {
    exists|k: int|
        0 <= k < greek_stems().len() && stands_at(word, 0, #[trigger] greek_stems()[k])
            && breaks_behind(word, greek_stems()[k].len() as int)
}

/// Whether a token is one on which the Greek stemmer can panic. On every other token it returns.
pub open spec fn breaks_greek_stemmer(token: Seq<char>) -> bool {
    breaks_at_past(greek_folded(token)) || breaks_at_joint(greek_folded(token))
}

fn can_break_at_past(word: &Vec<char>) -> (r: bool)
    ensures
        r == breaks_at_past(word@),
{
    let at: usize = match behind(word, 0, "ισα") {
        Some(at) => at,
        None => {
            return false;
        },
    };
    let pasts = greek_pasts_list();
    assert(str_views(pasts@).len() == pasts@.len());
    let mut k: usize = 0;
    while k < pasts.len()
        invariant
            stands_at(word@, 0, "ισα"@),
            at == "ισα"@.len(),
            at <= word@.len(),
            k <= pasts@.len(),
            str_views(pasts@) == greek_pasts(),
            pasts@.len() == greek_pasts().len(),
            forall|j: int|
                0 <= j < k ==> !(stands_at(word@, at as int, #[trigger] greek_pasts()[j])
                    && rest_goes(word@, at + greek_pasts()[j].len())),
        decreases pasts.len() - k,
    {
        let past = pasts[k];
        assert(greek_pasts()[k as int] == past@);
        if let Some(next) = behind(word, at, past) {
            if rest_can_go(word, next) {
                return true;
            }
        }
        k = k + 1;
    }
    false
}

fn can_break_behind(word: &Vec<char>, at: usize) -> (r: bool)
    requires
        at <= word@.len(),
    ensures
        r == breaks_behind(word@, at as int),
{
    let joints = greek_joints_list();
    assert(str_views(joints@).len() == joints@.len());
    let mut k: usize = 0;
    while k < joints.len()
        invariant
            at <= word@.len(),
            k <= joints@.len(),
            str_views(joints@) == greek_joints(),
            joints@.len() == greek_joints().len(),
            forall|j: int|
                0 <= j < k ==> !(stands_at(word@, at as int, #[trigger] greek_joints()[j])
                    && stands_at(word@, at + greek_joints()[j].len(), "ετε"@) && rest_goes(
                    word@,
                    at + greek_joints()[j].len() + "ετε"@.len(),
                )),
        decreases joints.len() - k,
    {
        let joint = joints[k];
        assert(greek_joints()[k as int] == joint@);
        if let Some(next) = behind(word, at, joint) {
            if let Some(last) = behind(word, next, "ετε") {
                if rest_can_go(word, last) {
                    return true;
                }
            }
        }
        k = k + 1;
    }
    false
}

/// Whether a token is one on which the Greek stemmer can panic.
pub fn can_break_greek_stemmer(token: &str) -> (r: bool)
    ensures
        r == breaks_greek_stemmer(token@),
{
    let word = fold_word(token);
    if can_break_at_past(&word) {
        return true;
    }
    let stems = greek_stems_list();
    assert(str_views(stems@).len() == stems@.len());
    let mut k: usize = 0;
    while k < stems.len()
        invariant
            word@ == greek_folded(token@),
            !breaks_at_past(word@),
            k <= stems@.len(),
            str_views(stems@) == greek_stems(),
            stems@.len() == greek_stems().len(),
            forall|j: int|
                0 <= j < k ==> !(stands_at(word@, 0, #[trigger] greek_stems()[j])
                    && breaks_behind(word@, greek_stems()[j].len() as int)),
        decreases stems.len() - k,
    {
        let stem = stems[k];
        assert(greek_stems()[k as int] == stem@);
        if let Some(next) = behind(&word, 0, stem) {
            if can_break_behind(&word, next) {
                return true;
            }
        }
        k = k + 1;
    }
    false
}

proof fn pasts_begin_alike(k: int)
    requires
        0 <= k < greek_pasts().len(),
    ensures
        greek_pasts()[k].len() >= 3,
        greek_pasts()[k][0] == 'ι',
        greek_pasts()[k][1] == 'σ',
{
    reveal_strlit("ισα");
    reveal_strlit("ισαμε");
    reveal_strlit("ισαν");
    reveal_strlit("ισανε");
    reveal_strlit("ισατε");
    reveal_strlit("ισε");
    reveal_strlit("ισεσ");
}

proof fn stems_have_letters(k: int)
    requires
        0 <= k < greek_stems().len(),
    ensures
        greek_stems()[k].len() >= 1,
{
    reveal_strlit("αβαρ");
    reveal_strlit("αβρ");
    reveal_strlit("αδ");
    reveal_strlit("αθ");
    reveal_strlit("αν");
    reveal_strlit("απλ");
    reveal_strlit("βαρον");
    reveal_strlit("βεν");
    reveal_strlit("δ");
    reveal_strlit("εμ");
    reveal_strlit("εναρ");
    reveal_strlit("θ");
    reveal_strlit("θαρρ");
    reveal_strlit("κοπ");
    reveal_strlit("μπορ");
    reveal_strlit("νιφ");
    reveal_strlit("ντρ");
    reveal_strlit("παγ");
    reveal_strlit("παρακαλ");
    reveal_strlit("σερπ");
    reveal_strlit("σκ");
    reveal_strlit("σκελ");
    reveal_strlit("συρφ");
    reveal_strlit("τοκ");
    reveal_strlit("υ");
}

proof fn joints_have_letters(k: int)
    requires
        0 <= k < greek_joints().len(),
    ensures
        greek_joints()[k].len() >= 3,
{
    reveal_strlit("αιν");
    reveal_strlit("αιρ");
    reveal_strlit("αρκ");
    reveal_strlit("βαρ");
    reveal_strlit("βολ");
    reveal_strlit("διαθ");
    reveal_strlit("εκθ");
    reveal_strlit("ενδ");
    reveal_strlit("ενθ");
    reveal_strlit("ευθ");
    reveal_strlit("ευρ");
    reveal_strlit("καθ");
    reveal_strlit("νετ");
    reveal_strlit("πον");
    reveal_strlit("πυρ");
    reveal_strlit("ραθ");
    reveal_strlit("ροθ");
    reveal_strlit("ρον");
    reveal_strlit("συν");
    reveal_strlit("συνδ");
    reveal_strlit("συνθ");
    reveal_strlit("ταθ");
    reveal_strlit("τιθ");
    reveal_strlit("υπερθ");
    reveal_strlit("φορ");
    reveal_strlit("χωρ");
    reveal_strlit("ωφελ");
}

/// A token on which the stemmer can panic begins, with its letters folded, with `ισα` and at least
/// three letters more, or holds `ετε` behind at least four letters. It can be run on every other.
pub proof fn few_words_break_the_stemmer(token: Seq<char>)
    requires
        breaks_greek_stemmer(token),
    ensures
        ({
            let w = greek_folded(token);
            ||| w.len() >= 6 && w[0] == 'ι' && w[1] == 'σ' && w[2] == 'α' && w[3] == 'ι' && w[4]
                == 'σ'
            ||| exists|k: int|
                4 <= k && k + 3 <= w.len() && #[trigger] w[k] == 'ε' && w[k + 1] == 'τ' && w[k + 2]
                    == 'ε'
        }),
{
    let w = greek_folded(token);
    reveal_strlit("ισα");
    reveal_strlit("ετε");
    if breaks_at_past(w) {
        let k = choose|k: int|
            0 <= k < greek_pasts().len() && stands_at(
                w,
                "ισα"@.len() as int,
                #[trigger] greek_pasts()[k],
            ) && rest_goes(w, "ισα"@.len() as int + greek_pasts()[k].len());
        let past = greek_pasts()[k];
        pasts_begin_alike(k);
        let head = w.subrange(0, 3);
        assert(head[0] == w[0] && head[1] == w[1] && head[2] == w[2]);
        let next = w.subrange(3, 3 + past.len() as int);
        assert(next[0] == w[3] && next[1] == w[4]);
    } else {
        let i = choose|i: int|
            0 <= i < greek_stems().len() && stands_at(w, 0, #[trigger] greek_stems()[i])
                && breaks_behind(w, greek_stems()[i].len() as int);
        let at = greek_stems()[i].len() as int;
        let j = choose|j: int|
            0 <= j < greek_joints().len() && stands_at(w, at, #[trigger] greek_joints()[j])
                && stands_at(w, at + greek_joints()[j].len(), "ετε"@) && rest_goes(
                w,
                at + greek_joints()[j].len() + "ετε"@.len(),
            );
        stems_have_letters(i);
        joints_have_letters(j);
        let k = at + greek_joints()[j].len();
        let part = w.subrange(k, k + 3);
        assert(part[0] == w[k] && part[1] == w[k + 1] && part[2] == w[k + 2]);
    }
}

} // verus!

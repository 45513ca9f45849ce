use paimon_ftindex_core::automaton::{PrefixedDfaAutomaton, SINK_STATE};
use paimon_ftindex_core::docset::{matches_doc, DocCheck, ExpandedDocs, SortedDocSet, TERMINATED};

fn accepts(automaton: &PrefixedDfaAutomaton, text: &str) -> bool {
    let mut state = automaton.start();
    for byte in text.as_bytes() {
        state = automaton.accept(&state, *byte);
    }
    automaton.is_match(&state)
}

#[test]
fn end_of_a_set_is_shared_with_tantivy() {
    assert_eq!(TERMINATED, tantivy::TERMINATED);
    assert_eq!(SINK_STATE, levenshtein_automata::SINK_STATE);
}

#[test]
fn sets_are_walked_in_order() {
    let mut set = SortedDocSet::new(vec![2, 5, 9]);
    assert_eq!((set.doc(), set.size_hint()), (2, 3));
    assert_eq!(set.advance(), 5);
    assert_eq!(set.size_hint(), 2);
    assert_eq!(set.advance(), 9);
    assert_eq!(set.advance(), TERMINATED);
    assert_eq!(set.advance(), TERMINATED);
    assert_eq!((set.doc(), set.size_hint()), (TERMINATED, 0));
    let empty = SortedDocSet::new(Vec::new());
    assert_eq!((empty.doc(), empty.size_hint()), (TERMINATED, 0));
}

#[test]
fn seeking_never_goes_back() {
    let mut set = SortedDocSet::new(vec![2, 5, 9, 12, 40]);
    assert_eq!(set.seek(6), 9);
    assert_eq!(set.seek(1), 9);
    assert_eq!(set.seek(9), 9);
    assert_eq!(set.seek(12), 12);
    assert_eq!(set.size_hint(), 2);
    assert_eq!(set.seek(41), TERMINATED);
    assert_eq!(set.seek(u32::MAX), TERMINATED);
    assert_eq!(set.seek(0), TERMINATED);
}

#[test]
fn expansions_are_limited_and_merged() {
    let mut docs = ExpandedDocs::new(2);
    assert!(docs.has_room());
    docs.begin_token();
    assert!(docs.add_block(&[9, 3]));
    assert!(docs.add_block(&[4]));
    assert!(!docs.add_block(&[]));
    assert!(docs.has_room());
    docs.begin_token();
    assert!(docs.add_block(&[3, 1, 9]));
    assert!(!docs.has_room());
    let mut set = docs.finish();
    let mut walked = Vec::new();
    while set.doc() != TERMINATED {
        walked.push(set.doc());
        set.advance();
    }
    assert_eq!(walked, vec![1, 3, 4, 9]);
    assert!(!ExpandedDocs::new(0).has_room());
}

#[test]
fn document_checks_are_decided_or_sought() {
    assert_eq!(matches_doc(3, 3), DocCheck::Match);
    assert_eq!(matches_doc(4, 3), DocCheck::Mismatch);
    assert_eq!(matches_doc(TERMINATED, 3), DocCheck::Mismatch);
    assert_eq!(matches_doc(2, 3), DocCheck::Seek);
    assert_eq!(matches_doc(2, TERMINATED), DocCheck::Mismatch);
    assert_eq!(matches_doc(TERMINATED, TERMINATED), DocCheck::Mismatch);
}

#[test]
fn automaton_accepts_close_tokens_with_the_prefix() {
    let automaton = PrefixedDfaAutomaton::for_token("paimon", 1, "pa");
    for close in ["paimon", "paimo", "paimons", "paimno", "parmon"] {
        assert!(accepts(&automaton, close));
    }
    for far in ["aimon", "pimon", "paaaimon", "", "p", "paimonss", "qaimon"] {
        assert!(!accepts(&automaton, far));
    }
    let free = PrefixedDfaAutomaton::for_token("paimon", 1, "");
    assert!(accepts(&free, "aimon") && accepts(&free, "qaimon"));
    assert!(!accepts(&free, "aimo"));
    let wide = PrefixedDfaAutomaton::for_token("paimon", 2, "");
    assert!(accepts(&wide, "aimo"));
}

fn words(letters: &[char], longest: usize) -> Vec<String> {
    let mut all = vec![String::new()];
    let mut from = 0;
    for _ in 0..longest {
        let to = all.len();
        for i in from..to {
            for letter in letters {
                all.push(format!("{}{}", all[i], letter));
            }
        }
        from = to;
    }
    all
}

fn distance(a: &str, b: &str) -> usize {
    let a: Vec<char> = a.chars().collect();
    let b: Vec<char> = b.chars().collect();
    let mut table = vec![vec![0; b.len() + 1]; a.len() + 1];
    for i in 0..=a.len() {
        for j in 0..=b.len() {
            if i == 0 || j == 0 {
                table[i][j] = i + j;
                continue;
            }
            let replaced = table[i - 1][j - 1] + usize::from(a[i - 1] != b[j - 1]);
            let mut least = replaced.min(table[i - 1][j] + 1).min(table[i][j - 1] + 1);
            if i > 1 && j > 1 && a[i - 1] == b[j - 2] && a[i - 2] == b[j - 1] {
                least = least.min(table[i - 2][j - 2] + 1);
            }
            table[i][j] = least;
        }
    }
    table[a.len()][b.len()]
}

#[test]
fn automaton_accepts_exactly_the_texts_within_the_distance() {
    assert_eq!(distance("ca", "abc"), 3);
    assert_eq!(distance("paimno", "paimon"), 1);
    for (letters, longest) in [(vec!['a', 'b', 'é'], 4), (vec!['a', '中'], 6)] {
        let words = words(&letters, longest);
        for token in &words {
            for allowed in [1, 2] {
                let automaton = PrefixedDfaAutomaton::for_token(token, allowed, "");
                for word in &words {
                    assert_eq!(
                        accepts(&automaton, word),
                        distance(token, word) <= usize::from(allowed),
                        "{token} {word} {allowed}"
                    );
                }
            }
        }
    }
}

#[test]
fn automaton_works_on_bytes_of_characters() {
    let automaton = PrefixedDfaAutomaton::for_token("ärgerlich", 2, "ä");
    assert!(accepts(&automaton, "ärgerlich"));
    assert!(accepts(&automaton, "ärgelich"));
    assert!(!accepts(&automaton, "argerlich"));
    assert!(!accepts(&automaton, "öärgerlich"));
}

#[test]
fn automaton_gives_up_for_good() {
    let automaton = PrefixedDfaAutomaton::for_token("paimon", 1, "pa");
    let start = automaton.start();
    assert!(automaton.can_match(&start));
    let wrong = automaton.accept(&start, b'x');
    assert!(!automaton.can_match(&wrong));
    let mut state = wrong;
    for byte in b"paimon" {
        state = automaton.accept(&state, *byte);
        assert!(!automaton.is_match(&state));
        assert!(!automaton.can_match(&state));
    }
    let mut state = automaton.start();
    for byte in b"pazzzz" {
        state = automaton.accept(&state, *byte);
    }
    assert!(!automaton.can_match(&state));
    for byte in "üpaimon".as_bytes() {
        state = automaton.accept(&state, *byte);
        assert!(!automaton.is_match(&state));
    }
}

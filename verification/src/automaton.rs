//! The automaton that finds the tokens within an edit distance of a token.
use levenshtein_automata::{Distance, LevenshteinAutomatonBuilder, DFA};
use vstd::prelude::*;
use vstd::utf8::encode_utf8;

verus! {

/// levenshtein_automata's automaton, a table of states.
#[verifier::external_type_specification]
#[verifier::external_body]
pub struct ExDFA(DFA);

/// The state in which the automaton has given up.
pub const SINK_STATE: u32 = 0;

/// The state that follows each state on each byte.
pub uninterp spec fn dfa_rows(dfa: DFA) -> Seq<Seq<u32>>;

/// Which states stand for a text within the distance.
pub uninterp spec fn dfa_accepting(dfa: DFA) -> Seq<bool>;

/// The state that the automaton starts in.
pub uninterp spec fn dfa_start(dfa: DFA) -> u32;

/// The smaller of two numbers.
pub open spec fn smaller(a: nat, b: nat) -> nat {
    if a <= b {
        a
    } else {
        b
    }
}

/// How many edits turn one text into another: a character is inserted, deleted or replaced, or two
/// adjacent characters change places. No character is edited twice.
pub open spec fn edit_distance(a: Seq<char>, b: Seq<char>) -> nat
    decreases a.len() + b.len(),
{
    if a.len() == 0 {
        b.len()
    } else if b.len() == 0 {
        a.len()
    } else {
        let shifted = smaller(
            edit_distance(a.drop_last(), b) + 1,
            edit_distance(a, b.drop_last()) + 1,
        );
        let aligned = edit_distance(a.drop_last(), b.drop_last()) + (if a.last() == b.last() {
            0nat
        } else {
            1nat
        });
        let least = smaller(shifted, aligned);
        if a.len() > 1 && b.len() > 1 && a.last() == b[b.len() - 2] && b.last() == a[a.len() - 2] {
            smaller(least, edit_distance(a.take(a.len() - 2), b.take(b.len() - 2)) + 1)
        } else {
            least
        }
    }
}

/// A text is at no distance from itself.
pub proof fn no_distance_to_itself(a: Seq<char>)
    ensures
        edit_distance(a, a) == 0,
    decreases a.len(),
{
    if a.len() > 0 {
        no_distance_to_itself(a.drop_last());
    }
}

/// The state that the automaton is in after the bytes.
pub open spec fn dfa_run(rows: Seq<Seq<u32>>, state: u32, bytes: Seq<u8>) -> u32
    decreases bytes.len(),
{
    if bytes.len() == 0 {
        state
    } else {
        rows[dfa_run(rows, state, bytes.drop_last()) as int][bytes.last() as int]
    }
}

/// Whether the table can be walked: each state leads to a state on each byte, and is known to be
/// accepting or not.
pub open spec fn is_table(rows: Seq<Seq<u32>>, accepting: Seq<bool>, start: u32) -> bool {
    &&& start < rows.len()
    &&& 0 < rows.len()
    &&& accepting.len() == rows.len()
    &&& forall|s: int| 0 <= s < rows.len() ==> (#[trigger] rows[s]).len() == 256
    &&& forall|s: int, b: int|
        0 <= s < rows.len() && 0 <= b < 256 ==> (#[trigger] rows[s][b]) < rows.len()
}

/// Whether no text leads from the sink to an accepting state.
pub open spec fn sink_is_dead(rows: Seq<Seq<u32>>, accepting: Seq<bool>) -> bool {
    forall|bytes: Seq<u8>| !accepting[#[trigger] dfa_run(rows, SINK_STATE, bytes) as int]
}

/// The longest term, in characters, whose automaton has states that can be numbered.
pub const LONGEST_TERM: usize = 15_790_319;

/// `LevenshteinAutomatonBuilder::new`, with a transposition counted as one edit, and
/// `LevenshteinAutomatonBuilder::build_dfa`: an automaton whose table can be walked and whose sink
/// leads nowhere. Of the texts, which it reads in UTF-8, it accepts those within the distance. It does
/// not validate UTF-8: nothing is claimed of bytes that are no text.
#[verifier::external_body]
fn build_dfa(distance: u8, term: &str) -> (r: DFA)
    requires
        1 <= distance <= 2,
        term@.len() <= LONGEST_TERM,
    ensures
        is_table(dfa_rows(r), dfa_accepting(r), dfa_start(r)),
        sink_is_dead(dfa_rows(r), dfa_accepting(r)),
        forall|text: Seq<char>|
            dfa_accepting(r)[#[trigger] dfa_run(
                dfa_rows(r),
                dfa_start(r),
                encode_utf8(text),
            ) as int] == (edit_distance(term@, text) <= distance),
{
    LevenshteinAutomatonBuilder::new(distance, true).build_dfa(term)
}

/// `DFA::initial_state`.
#[verifier::external_body]
fn initial_state(dfa: &DFA) -> (r: u32)
    ensures
        r == dfa_start(*dfa),
{
    dfa.initial_state()
}

/// `DFA::transition`, which panics on a state that is none.
#[verifier::external_body]
fn transition(dfa: &DFA, state: u32, byte: u8) -> (r: u32)
    requires
        state < dfa_rows(*dfa).len(),
    ensures
        r == dfa_rows(*dfa)[state as int][byte as int],
{
    dfa.transition(state, byte)
}

/// Whether `DFA::distance` of a state is an exact one. It panics on a state that is none.
#[verifier::external_body]
fn is_accepting(dfa: &DFA, state: u32) -> (r: bool)
    requires
        state < dfa_accepting(*dfa).len(),
    ensures
        r == dfa_accepting(*dfa)[state as int],
{
    match dfa.distance(state) {
        Distance::Exact(_) => true,
        Distance::AtLeast(_) => false,
    }
}

/// An automaton that accepts the tokens within an edit distance of a token that begin with given
/// bytes.
pub struct PrefixedDfaAutomaton {
    dfa: DFA,
    prefix: Vec<u8>,
}

/// A state: that of the automaton for the distance and, as long as the bytes so far agree with the
/// prefix, how many bytes of it have been seen.
pub type AutomatonState = (u32, Option<usize>);

/// How many bytes of the prefix have been seen after the bytes, if they agree with it.
pub open spec fn prefix_progress(prefix: Seq<u8>, bytes: Seq<u8>) -> Option<usize> {
    if prefix.is_prefix_of(bytes) {
        Some(prefix.len() as usize)
    } else if bytes.is_prefix_of(prefix) {
        Some(bytes.len() as usize)
    } else {
        None
    }
}

impl PrefixedDfaAutomaton {
    /// The table of the automaton for the distance.
    pub closed spec fn rows(&self) -> Seq<Seq<u32>> {
        dfa_rows(self.dfa)
    }

    /// The states of the automaton for the distance that are accepting.
    pub closed spec fn accepting(&self) -> Seq<bool> {
        dfa_accepting(self.dfa)
    }

    /// The state that the automaton for the distance starts in.
    pub closed spec fn first(&self) -> u32 {
        dfa_start(self.dfa)
    }

    /// The bytes that an accepted token begins with.
    pub closed spec fn prefix(&self) -> Seq<u8> {
        self.prefix@
    }

    /// Whether the table of the automaton can be walked and its sink leads nowhere.
    pub open spec fn well_formed(&self) -> bool {
        &&& is_table(self.rows(), self.accepting(), self.first())
        &&& sink_is_dead(self.rows(), self.accepting())
        &&& self.prefix().len() <= usize::MAX
    }

    /// Whether the automaton for the distance accepts the texts within `distance` of `token`, and
    /// no other text.
    pub open spec fn looks_for(&self, token: Seq<char>, distance: u8) -> bool {
        forall|text: Seq<char>|
            self.accepting()[#[trigger] dfa_run(
                self.rows(),
                self.first(),
                encode_utf8(text),
            ) as int] == (edit_distance(token, text) <= distance)
    }

    /// Whether this is a state of the automaton.
    pub open spec fn is_state(&self, state: AutomatonState) -> bool {
        &&& state.0 < self.rows().len()
        &&& state.1 matches Some(seen) ==> seen <= self.prefix().len()
    }

    /// The state that follows a state on a byte.
    pub open spec fn next(&self, state: AutomatonState, byte: u8) -> AutomatonState {
        (
            self.rows()[state.0 as int][byte as int],
            match state.1 {
                None => None,
                Some(seen) => if seen >= self.prefix().len() {
                    Some(seen)
                } else if self.prefix()[seen as int] == byte {
                    Some((seen + 1) as usize)
                } else {
                    None
                },
            },
        )
    }

    /// The state that the bytes lead to from a state.
    pub open spec fn run(&self, state: AutomatonState, bytes: Seq<u8>) -> AutomatonState
        decreases bytes.len(),
    {
        if bytes.len() == 0 {
            state
        } else {
            self.next(self.run(state, bytes.drop_last()), bytes.last())
        }
    }

    /// The state before any byte.
    pub open spec fn start_state(&self) -> AutomatonState {
        (self.first(), Some(0usize))
    }

    /// Whether a token that ends in this state is accepted.
    pub open spec fn accepts_in(&self, state: AutomatonState) -> bool {
        self.accepting()[state.0 as int] && (state.1 matches Some(seen) && seen
            >= self.prefix().len())
    }

    /// The automaton for the tokens within `distance` of `token` that begin with `prefix`.
    pub fn for_token(token: &str, distance: u8, prefix: &str) -> (r: Self)
        requires
            1 <= distance <= 2,
            token@.len() <= LONGEST_TERM,
        ensures
            r.well_formed(),
            r.prefix() == encode_utf8(prefix@),
            r.looks_for(token@, distance),
    {
        let dfa = build_dfa(distance, token);
        let prefix = prefix.as_bytes_vec();
        assert(prefix.len() <= usize::MAX);
        PrefixedDfaAutomaton { dfa, prefix }
    }

    /// The state before any byte.
    pub fn start(&self) -> (r: AutomatonState)
        requires
            self.well_formed(),
        ensures
            r == self.start_state(),
            self.is_state(r),
    {
        (initial_state(&self.dfa), Some(0))
    }

    /// Whether a token that ends in this state is accepted.
    pub fn is_match(&self, state: &AutomatonState) -> (r: bool)
        requires
            self.well_formed(),
            self.is_state(*state),
        ensures
            r == self.accepts_in(*state),
    {
        let complete = match state.1 {
            Some(seen) => seen >= self.prefix.len(),
            None => false,
        };
        complete && is_accepting(&self.dfa, state.0)
    }

    /// Whether a token may still be accepted. Where this is `false`, no further bytes lead to an
    /// accepted token.
    pub fn can_match(&self, state: &AutomatonState) -> (r: bool)
        requires
            self.well_formed(),
            self.is_state(*state),
        ensures
            r == (state.0 != SINK_STATE && state.1 is Some),
            !r ==> forall|bytes: Seq<u8>| !self.accepts_in(#[trigger] self.run(*state, bytes)),
    {
        let r = state.0 != SINK_STATE && state.1.is_some();
        proof {
            if !r {
                assert forall|bytes: Seq<u8>| !self.accepts_in(
                    #[trigger] self.run(*state, bytes),
                ) by {
                    dead_state_stays_dead(*self, *state, bytes);
                }
            }
        }
        r
    }

    /// The state that follows a state on a byte.
    pub fn accept(&self, state: &AutomatonState, byte: u8) -> (r: AutomatonState)
        requires
            self.well_formed(),
            self.is_state(*state),
        ensures
            r == self.next(*state, byte),
            self.is_state(r),
    {
        let dfa_state: u32 = transition(&self.dfa, state.0, byte);
        let prefix_state: Option<usize> = match state.1 {
            None => None,
            Some(seen) => if seen >= self.prefix.len() {
                Some(seen)
            } else if self.prefix[seen] == byte {
                Some(seen + 1)
            } else {
                None
            },
        };
        proof {
            assert(self.rows()[state.0 as int][byte as int] < self.rows().len());
        }
        (dfa_state, prefix_state)
    }
}

/// The first part of a state is that of the automaton for the distance.
proof fn run_follows_dfa(a: PrefixedDfaAutomaton, state: AutomatonState, bytes: Seq<u8>)
    requires
        a.well_formed(),
        a.is_state(state),
    ensures
        a.run(state, bytes).0 == dfa_run(a.rows(), state.0, bytes),
        a.is_state(a.run(state, bytes)),
        state.1 is None ==> a.run(state, bytes).1 is None,
    decreases bytes.len(),
{
    if bytes.len() > 0 {
        run_follows_dfa(a, state, bytes.drop_last());
        let before = a.run(state, bytes.drop_last());
        assert(a.rows()[before.0 as int][bytes.last() as int] < a.rows().len());
    }
}

proof fn dead_state_stays_dead(a: PrefixedDfaAutomaton, state: AutomatonState, bytes: Seq<u8>)
    requires
        a.well_formed(),
        a.is_state(state),
        state.0 == SINK_STATE || state.1 is None,
    ensures
        !a.accepts_in(a.run(state, bytes)),
{
    run_follows_dfa(a, state, bytes);
    if state.0 == SINK_STATE {
        assert(!a.accepting()[dfa_run(a.rows(), SINK_STATE, bytes) as int]);
    }
}

/// The second part of a state says how the bytes agree with the prefix.
proof fn run_follows_prefix(a: PrefixedDfaAutomaton, bytes: Seq<u8>)
    requires
        a.well_formed(),
    ensures
        a.run(a.start_state(), bytes).1 == prefix_progress(a.prefix(), bytes),
    decreases bytes.len(),
{
    let prefix = a.prefix();
    if bytes.len() == 0 {
        if prefix.is_prefix_of(bytes) {
            assert(prefix.len() == 0);
        }
        assert(bytes.is_prefix_of(prefix)) by {
            assert(prefix.subrange(0, 0) =~= bytes);
        }
    } else {
        let shorter = bytes.drop_last();
        run_follows_prefix(a, shorter);
        if prefix.is_prefix_of(shorter) {
            assert(prefix =~= bytes.subrange(0, prefix.len() as int));
        } else if shorter.is_prefix_of(prefix) {
            assert(shorter.len() < prefix.len()) by {
                if shorter.len() == prefix.len() {
                    assert(prefix =~= shorter);
                }
            }
            let n = shorter.len() as int;
            if prefix[n] == bytes.last() {
                assert(bytes =~= prefix.subrange(0, n + 1)) by {
                    assert forall|i: int| 0 <= i < n implies bytes[i] == prefix[i] by {
                        assert(shorter[i] == prefix.subrange(0, n)[i]);
                    }
                }
                if n + 1 == prefix.len() {
                    assert(prefix =~= bytes);
                    assert(prefix.is_prefix_of(bytes));
                } else {
                    assert(!prefix.is_prefix_of(bytes));
                }
            } else {
                if bytes.is_prefix_of(prefix) {
                    assert(bytes[n] == prefix.subrange(0, n + 1)[n]);
                }
                if prefix.is_prefix_of(bytes) {
                    assert(prefix[n] == bytes.subrange(0, prefix.len() as int)[n]);
                }
            }
        } else {
            if prefix.is_prefix_of(bytes) {
                if prefix.len() <= shorter.len() {
                    assert(prefix =~= shorter.subrange(0, prefix.len() as int));
                } else {
                    assert(prefix =~= bytes);
                    assert(shorter =~= prefix.subrange(0, shorter.len() as int));
                }
            }
            if bytes.is_prefix_of(prefix) {
                assert(shorter =~= prefix.subrange(0, shorter.len() as int));
            }
        }
    }
}

/// Of the texts, the automaton for a token accepts exactly those that are within the distance and
/// begin with the prefix.
pub proof fn accepts_texts_within_distance(
    a: PrefixedDfaAutomaton,
    token: Seq<char>,
    distance: u8,
    text: Seq<char>,
)
    requires
        a.well_formed(),
        a.looks_for(token, distance),
    ensures
        a.accepts_in(a.run(a.start_state(), encode_utf8(text))) <==> edit_distance(token, text)
            <= distance && a.prefix().is_prefix_of(encode_utf8(text)),
{
    accepts_exactly(a, encode_utf8(text));
}

/// The automaton accepts exactly the bytes that the automaton for the distance accepts and that
/// begin with the prefix.
pub proof fn accepts_exactly(a: PrefixedDfaAutomaton, bytes: Seq<u8>)
    requires
        a.well_formed(),
    ensures
        a.accepts_in(a.run(a.start_state(), bytes)) <==> a.accepting()[dfa_run(
            a.rows(),
            a.first(),
            bytes,
        ) as int] && a.prefix().is_prefix_of(bytes),
{
    assert(a.is_state(a.start_state()));
    run_follows_dfa(a, a.start_state(), bytes);
    run_follows_prefix(a, bytes);
    if a.prefix().is_prefix_of(bytes) {
    } else if bytes.is_prefix_of(a.prefix()) {
        if bytes.len() == a.prefix().len() {
            assert(a.prefix() =~= bytes);
            assert(a.prefix().is_prefix_of(bytes));
        }
    }
}

/// Where a state cannot match, no continuation of the bytes that led to it is accepted, so that
/// giving up there loses no token.
pub proof fn giving_up_loses_nothing(a: PrefixedDfaAutomaton, bytes: Seq<u8>, more: Seq<u8>)
    requires
        a.well_formed(),
        a.run(a.start_state(), bytes).0 == SINK_STATE || a.run(a.start_state(), bytes).1 is None,
    ensures
        !a.accepts_in(a.run(a.start_state(), bytes + more)),
{
    assert(a.is_state(a.start_state()));
    run_follows_dfa(a, a.start_state(), bytes);
    run_splits(a, a.start_state(), bytes, more);
    dead_state_stays_dead(a, a.run(a.start_state(), bytes), more);
}

proof fn run_splits(
    a: PrefixedDfaAutomaton,
    state: AutomatonState,
    bytes: Seq<u8>,
    more: Seq<u8>,
)
    ensures
        a.run(state, bytes + more) == a.run(a.run(state, bytes), more),
    decreases more.len(),
{
    if more.len() == 0 {
        assert(bytes + more =~= bytes);
    } else {
        run_splits(a, state, bytes, more.drop_last());
        assert((bytes + more).drop_last() =~= bytes + more.drop_last());
        assert((bytes + more).last() == more.last());
    }
}

/// The bytes of the beginning of a text are the beginning of its bytes.
proof fn bytes_of_beginning(text: Seq<char>, n: int)
    requires
        0 <= n <= text.len(),
    ensures
        encode_utf8(text.take(n)).is_prefix_of(encode_utf8(text)),
    decreases n,
{
    if n == 0 {
        assert(text.take(0) =~= Seq::<char>::empty());
        assert(encode_utf8(text).subrange(0, 0) =~= encode_utf8(text.take(0)));
    } else {
        let rest = text.drop_first();
        bytes_of_beginning(rest, n - 1);
        assert(text.take(n).drop_first() =~= rest.take(n - 1));
        let head = vstd::utf8::encode_scalar(text[0] as u32);
        let short = encode_utf8(rest.take(n - 1));
        let long = encode_utf8(rest);
        assert(short =~= long.subrange(0, short.len() as int));
        assert((head + short) =~= (head + long).subrange(0, (head + short).len() as int)) by {
            assert forall|i: int| 0 <= i < (head + short).len() implies (head + short)[i] == (head
                + long)[i] by {
                if i >= head.len() {
                    assert(short[i - head.len()] == long.subrange(
                        0,
                        short.len() as int,
                    )[i - head.len()]);
                }
            }
        }
    }
}

/// A token is found by the automaton that looks for it, whatever part of its own beginning it must
/// begin with.
pub proof fn token_finds_itself(a: PrefixedDfaAutomaton, distance: u8, token: Seq<char>, n: int)
    requires
        a.well_formed(),
        0 <= n <= token.len(),
        a.prefix() == encode_utf8(token.take(n)),
        a.looks_for(token, distance),
    ensures
        a.accepts_in(a.run(a.start_state(), encode_utf8(token))),
{
    bytes_of_beginning(token, n);
    no_distance_to_itself(token);
    accepts_texts_within_distance(a, token, distance, token);
}

} // verus!

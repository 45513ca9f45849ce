//! Sets of document ids: the documents that the expansions of a fuzzy token lead to, walked in
//! increasing order.
use vstd::prelude::*;

verus! {

/// The document id that stands for the end of a set. It is above the id of every document.
pub const TERMINATED: u32 = 0x7fff_ffff;

/// Whether the ids increase from each to the next.
pub open spec fn increasing(docs: Seq<u32>) -> bool {
    forall|i: int, j: int| 0 <= i < j < docs.len() ==> docs[i] < docs[j]
}

/// Whether the ids do not decrease from each to the next.
pub open spec fn non_decreasing(docs: Seq<u32>) -> bool {
    forall|i: int, j: int| 0 <= i < j < docs.len() ==> docs[i] <= docs[j]
}

/// Whether each id is that of a document.
pub open spec fn all_documents(docs: Seq<u32>) -> bool {
    forall|i: int| 0 <= i < docs.len() ==> #[trigger] docs[i] < TERMINATED
}

/// The first of the ids, or the end.
pub open spec fn first_or_end(docs: Seq<u32>) -> u32 {
    if docs.len() > 0 {
        docs[0]
    } else {
        TERMINATED
    }
}

/// The ids that are not below `target`.
pub open spec fn not_below(docs: Seq<u32>, target: u32) -> Seq<u32> {
    docs.filter(|d: u32| d >= target)
}

/// Of increasing ids, those that are not below the target are those from some place on.
proof fn not_below_is_suffix(docs: Seq<u32>, target: u32, k: int)
    requires
        0 <= k <= docs.len(),
        forall|i: int| 0 <= i < k ==> docs[i] < target,
        forall|i: int| k <= i < docs.len() ==> docs[i] >= target,
    ensures
        not_below(docs, target) == docs.skip(k),
    decreases docs.len(),
{
    reveal(Seq::filter);
    if docs.len() > 0 {
        let n = docs.len() - 1;
        if k <= n {
            not_below_is_suffix(docs.drop_last(), target, k);
            assert(docs.skip(k) =~= docs.drop_last().skip(k).push(docs.last()));
        } else {
            not_below_is_suffix(docs.drop_last(), target, n);
            assert(docs.skip(k) =~= Seq::<u32>::empty());
            assert(docs.drop_last().skip(n) =~= Seq::<u32>::empty());
        }
    } else {
        assert(docs.skip(k) =~= Seq::<u32>::empty());
    }
}

/// Increasing ids are at least as large as their places.
proof fn ids_reach_places(docs: Seq<u32>, i: int)
    requires
        increasing(docs),
        0 <= i < docs.len(),
    ensures
        docs[i] >= i,
    decreases i,
{
    if i > 0 {
        ids_reach_places(docs, i - 1);
    }
}

/// A walk through increasing document ids.
pub struct SortedDocSet {
    docs: Vec<u32>,
    cursor: usize,
    doc: u32,
}

impl SortedDocSet {
    /// The ids from the current one on.
    pub closed spec fn remaining(&self) -> Seq<u32> {
        self.docs@.skip(self.cursor as int)
    }

    /// Whether the parts of the walk belong together.
    pub closed spec fn well_formed(&self) -> bool {
        &&& increasing(self.docs@)
        &&& all_documents(self.docs@)
        &&& self.cursor <= self.docs@.len()
        &&& self.doc == (if self.cursor < self.docs@.len() {
            self.docs@[self.cursor as int]
        } else {
            TERMINATED
        })
    }

    /// What a walk has left is a set of documents in increasing order.
    pub proof fn remaining_is_increasing(&self)
        requires
            self.well_formed(),
        ensures
            increasing(self.remaining()),
            all_documents(self.remaining()),
    {
        let s = self.remaining();
        assert forall|i: int| 0 <= i < s.len() implies #[trigger] s[i] < TERMINATED by {
            assert(s[i] == self.docs@[i + self.cursor]);
        }
    }

    /// A walk that stands at the first of the ids.
    pub fn new(docs: Vec<u32>) -> (r: Self)
        requires
            increasing(docs@),
            all_documents(docs@),
        ensures
            r.well_formed(),
            r.remaining() == docs@,
    {
        let doc: u32 = if docs.len() > 0 {
            docs[0]
        } else {
            TERMINATED
        };
        assert(docs@.skip(0) =~= docs@);
        SortedDocSet { docs, cursor: 0, doc }
    }

    /// Goes on to the next id, and stays at the end once it is there.
    pub fn advance(&mut self) -> (r: u32)
        requires
            old(self).well_formed(),
        ensures
            final(self).well_formed(),
            final(self).remaining() == (if old(self).remaining().len() > 0 {
                old(self).remaining().skip(1)
            } else {
                old(self).remaining()
            }),
            r == first_or_end(final(self).remaining()),
    {
        if self.doc == TERMINATED {
            assert(self.remaining().len() == 0);
            return TERMINATED;
        }
        assert(self.cursor < self.docs.len());
        self.cursor = self.cursor + 1;
        self.doc = if self.cursor < self.docs.len() {
            self.docs[self.cursor]
        } else {
            TERMINATED
        };
        assert(self.remaining() =~= old(self).remaining().skip(1));
        self.doc
    }

    /// Goes on to the first id that is not below `target`. The walk never goes back.
    pub fn seek(&mut self, target: u32) -> (r: u32)
        requires
            old(self).well_formed(),
        ensures
            final(self).well_formed(),
            final(self).remaining() == not_below(old(self).remaining(), target),
            r == first_or_end(final(self).remaining()),
    {
        let ghost before = self.remaining();
        proof {
            self.remaining_is_increasing();
        }
        if self.doc >= target {
            proof {
                not_below_is_suffix(before, target, 0);
                assert(before.skip(0) =~= before);
            }
            return self.doc;
        }
        let mut low: usize = self.cursor;
        let mut high: usize = self.docs.len();
        while low < high
            invariant
                self.well_formed(),
                *self == *old(self),
                self.cursor <= low <= high <= self.docs@.len(),
                forall|i: int| self.cursor <= i < low ==> self.docs@[i] < target,
                forall|i: int| high <= i < self.docs@.len() ==> self.docs@[i] >= target,
            decreases high - low,
        {
            let middle: usize = low + (high - low) / 2;
            if self.docs[middle] < target {
                low = middle + 1;
            } else {
                high = middle;
            }
        }
        proof {
            let k = low - self.cursor;
            assert forall|i: int| 0 <= i < k implies before[i] < target by {
                assert(before[i] == self.docs@[i + self.cursor]);
            }
            assert forall|i: int| k <= i < before.len() implies before[i] >= target by {
                assert(before[i] == self.docs@[i + self.cursor]);
            }
            not_below_is_suffix(before, target, k);
            assert(before.skip(k) =~= self.docs@.skip(low as int));
        }
        self.cursor = low;
        self.doc = if self.cursor < self.docs.len() {
            self.docs[self.cursor]
        } else {
            TERMINATED
        };
        self.doc
    }

    /// The current id, or the end.
    pub fn doc(&self) -> (r: u32)
        requires
            self.well_formed(),
        ensures
            r == first_or_end(self.remaining()),
    {
        self.doc
    }

    /// How many ids are left, the current one among them.
    pub fn size_hint(&self) -> (r: u32)
        requires
            self.well_formed(),
        ensures
            r == self.remaining().len(),
    {
        proof {
            if self.docs@.len() > 0 {
                ids_reach_places(self.docs@, self.docs@.len() - 1);
            }
        }
        if self.doc == TERMINATED {
            0
        } else {
            (self.docs.len() - self.cursor) as u32
        }
    }
}

/// `slice::sort_unstable` on numbers puts them in order and changes nothing else.
#[verifier::external_body]
fn sort_ids(docs: &mut Vec<u32>)
    ensures
        non_decreasing(final(docs)@),
        final(docs)@.to_multiset() == old(docs)@.to_multiset(),
{
    docs.sort_unstable();
}

/// The numbers, which are in order, each once.
fn without_repeats(docs: &Vec<u32>) -> (r: Vec<u32>)
    requires
        non_decreasing(docs@),
    ensures
        increasing(r@),
        r@.to_set() == docs@.to_set(),
{
    let mut out: Vec<u32> = Vec::new();
    let mut i: usize = 0;
    while i < docs.len()
        invariant
            i <= docs.len(),
            non_decreasing(docs@),
            increasing(out@),
            out@.len() > 0 <==> i > 0,
            i > 0 ==> out@.last() == docs@[i - 1],
            forall|k: int| 0 <= k < i ==> out@.contains(#[trigger] docs@[k]),
            forall|k: int| 0 <= k < out@.len() ==> docs@.contains(#[trigger] out@[k]),
        decreases docs.len() - i,
    {
        let d: u32 = docs[i];
        if i == 0 || docs[i - 1] < d {
            let ghost before = out@;
            out.push(d);
            proof {
                assert(docs@.contains(d)) by {
                    assert(docs@[i as int] == d);
                }
                assert forall|k: int| 0 <= k <= i implies out@.contains(#[trigger] docs@[k]) by {
                    if k < i {
                        let j = choose|j: int| 0 <= j < before.len() && before[j] == docs@[k];
                        assert(out@[j] == docs@[k]);
                    } else {
                        assert(out@[before.len() as int] == d);
                    }
                }
                assert(increasing(out@)) by {
                    assert forall|a: int, b: int| 0 <= a < b < out@.len() implies out@[a]
                        < out@[b] by {
                        if b == before.len() && a < before.len() - 1 {
                            assert(before[a] < before[before.len() - 1]);
                        }
                    }
                }
            }
        } else {
            assert(out@[out@.len() - 1] == d);
        }
        i = i + 1;
    }
    assert(out@.to_set() =~= docs@.to_set()) by {
        assert forall|d: u32| out@.to_set().contains(d) == docs@.to_set().contains(d) by {
            if out@.contains(d) {
                let k = choose|k: int| 0 <= k < out@.len() && out@[k] == d;
                assert(docs@.contains(out@[k]));
            }
            if docs@.contains(d) {
                let k = choose|k: int| 0 <= k < docs@.len() && docs@[k] == d;
                assert(out@.contains(docs@[k]));
            }
        }
    }
    out
}

/// The documents that a limited number of tokens lead to, while they are gathered.
pub struct ExpandedDocs {
    docs: Vec<u32>,
    expansions: usize,
    max_expansions: usize,
}

impl ExpandedDocs {
    /// The documents so far, in the order in which they came.
    pub closed spec fn gathered(&self) -> Seq<u32> {
        self.docs@
    }

    /// How many tokens have been looked up.
    pub closed spec fn tokens(&self) -> usize {
        self.expansions
    }

    /// How many tokens may be looked up.
    pub closed spec fn limit(&self) -> usize {
        self.max_expansions
    }

    /// No document yet, and no token looked up.
    pub fn new(max_expansions: usize) -> (r: Self)
        ensures
            r.gathered() == Seq::<u32>::empty(),
            r.tokens() == 0,
            r.limit() == max_expansions,
    {
        ExpandedDocs { docs: Vec::new(), expansions: 0, max_expansions }
    }

    /// Whether a further token may be looked up.
    pub fn has_room(&self) -> (r: bool)
        ensures
            r == (self.tokens() < self.limit()),
    {
        self.expansions < self.max_expansions
    }

    /// Counts a token that is looked up. There must be room for it, so no more than the limit ever
    /// are.
    pub fn begin_token(&mut self)
        requires
            old(self).tokens() < old(self).limit(),
        ensures
            final(self).tokens() == old(self).tokens() + 1,
            final(self).gathered() == old(self).gathered(),
            final(self).limit() == old(self).limit(),
    {
        self.expansions = self.expansions + 1;
    }

    /// Adds a block of documents. An empty block ends a token: nothing is added, and the result is
    /// `false`.
    pub fn add_block(&mut self, block: &[u32]) -> (r: bool)
        ensures
            r == (block@.len() > 0),
            final(self).gathered() == old(self).gathered() + block@,
            final(self).tokens() == old(self).tokens(),
            final(self).limit() == old(self).limit(),
    {
        let mut i: usize = 0;
        while i < block.len()
            invariant
                i <= block@.len(),
                self.docs@ == old(self).docs@ + block@.take(i as int),
                self.expansions == old(self).expansions,
                self.max_expansions == old(self).max_expansions,
            decreases block@.len() - i,
        {
            self.docs.push(block[i]);
            assert(block@.take(i + 1) =~= block@.take(i as int).push(block@[i as int]));
            i = i + 1;
        }
        assert(block@.take(block@.len() as int) =~= block@);
        block.len() > 0
    }

    /// A walk through the documents, each once and in increasing order.
    pub fn finish(self) -> (r: SortedDocSet)
        requires
            all_documents(self.gathered()),
        ensures
            r.well_formed(),
            increasing(r.remaining()),
            r.remaining().to_set() == self.gathered().to_set(),
    {
        let mut docs = self.docs;
        let ghost before = docs@;
        sort_ids(&mut docs);
        let once = without_repeats(&docs);
        proof {
            broadcast use vstd::seq_lib::group_to_multiset_ensures;
            assert forall|d: u32| before.contains(d) == docs@.contains(d) by {
                vstd::seq_lib::to_multiset_contains(before, d);
                vstd::seq_lib::to_multiset_contains(docs@, d);
            }
            assert(docs@.to_set() =~= before.to_set());
            assert forall|i: int| 0 <= i < once@.len() implies #[trigger] once@[i]
                < TERMINATED by {
                assert(once@.to_set().contains(once@[i]));
                assert(before.contains(once@[i]));
            }
        }
        SortedDocSet::new(once)
    }
}

/// How it is found out whether a set that is walked holds a document.
#[derive(Clone, Copy, Debug, PartialEq, Eq, Structural)]
pub enum DocCheck {
    /// It does.
    Match,
    /// It does not.
    Mismatch,
    /// The walk has to go on: it does exactly if seeking the document arrives at it.
    Seek,
}

/// How it is found out whether a set holds `doc`, where the walk stands at `current`.
pub open spec fn doc_check(current: u32, doc: u32) -> DocCheck {
    if doc == TERMINATED {
        DocCheck::Mismatch
    } else if current < doc {
        DocCheck::Seek
    } else if current == doc {
        DocCheck::Match
    } else {
        DocCheck::Mismatch
    }
}

/// How it is found out whether a set holds `doc`, where the walk stands at `current`.
pub fn matches_doc(current: u32, doc: u32) -> (r: DocCheck)
    ensures
        r == doc_check(current, doc),
{
    if doc == TERMINATED {
        return DocCheck::Mismatch;
    }
    if current < doc {
        DocCheck::Seek
    } else if current == doc {
        DocCheck::Match
    } else {
        DocCheck::Mismatch
    }
}

/// The check finds out whether the document is among those that are left of a walk.
pub proof fn doc_check_is_exact(remaining: Seq<u32>, doc: u32)
    requires
        increasing(remaining),
        all_documents(remaining),
    ensures
        match doc_check(first_or_end(remaining), doc) {
            DocCheck::Match => remaining.contains(doc),
            DocCheck::Mismatch => !remaining.contains(doc),
            DocCheck::Seek => remaining.contains(doc) <==> first_or_end(not_below(remaining, doc))
                == doc,
        },
{
    if doc_check(first_or_end(remaining), doc) is Seek {
        seek_arrives(remaining, doc);
    }
}

/// Seeking a target arrives at the smallest of the remaining ids that is not below it, or at the end
/// if there is none.
pub proof fn seek_arrives(remaining: Seq<u32>, target: u32)
    requires
        increasing(remaining),
        all_documents(remaining),
    ensures
        forall|d: u32| #[trigger]
            remaining.contains(d) && d >= target ==> first_or_end(not_below(remaining, target))
                <= d,
        first_or_end(not_below(remaining, target)) == TERMINATED || (remaining.contains(
            first_or_end(not_below(remaining, target)),
        ) && first_or_end(not_below(remaining, target)) >= target),
{
    let k = first_place(remaining, target, 0);
    not_below_is_suffix(remaining, target, k);
    let rest = remaining.skip(k);
    if k < remaining.len() {
        assert(rest[0] == remaining[k]);
    }
    assert forall|d: u32| #[trigger] remaining.contains(d) && d >= target implies first_or_end(
        rest,
    ) <= d by {
        let i = choose|i: int| 0 <= i < remaining.len() && remaining[i] == d;
        assert(i >= k);
    }
}

proof fn first_place(docs: Seq<u32>, target: u32, from: int) -> (k: int)
    requires
        increasing(docs),
        0 <= from <= docs.len(),
        forall|i: int| 0 <= i < from ==> docs[i] < target,
    ensures
        0 <= k <= docs.len(),
        forall|i: int| 0 <= i < k ==> docs[i] < target,
        forall|i: int| k <= i < docs.len() ==> docs[i] >= target,
    decreases docs.len() - from,
{
    if from < docs.len() && docs[from] < target {
        first_place(docs, target, from + 1)
    } else {
        from
    }
}

} // verus!

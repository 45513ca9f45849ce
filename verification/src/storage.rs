//! The file format of an index: a fixed prefix, a header, and the files of the index one after the
//! other.
//!
//! The prefix holds eight magic bytes, the version of the format and the length of the header, both
//! as 32 bits, low byte first.
use crate::config::FullTextIndexMetadata;
use crate::error::{invalid_storage, join, joined, ErrorView, FtIndexError};
use crate::text::{decimal, decimal_text, text_views};
use vstd::prelude::*;
use vstd::utf8::encode_utf8;

verus! {

/// The version of the format.
pub const FORMAT_VERSION: u32 = 1;

/// The length of the prefix.
pub const PREFIX_LENGTH: u64 = 16;

/// A file of the index: its name, and where it lies behind the start of the body.
#[derive(Debug, PartialEq, Eq)]
pub struct ArchiveFileEntry {
    pub name: String,
    pub offset: u64,
    pub length: u64,
}

/// The model of an `ArchiveFileEntry`.
#[verifier::ext_equal]
pub struct EntryView {
    pub name: Seq<char>,
    pub offset: u64,
    pub length: u64,
}

impl View for ArchiveFileEntry {
    type V = EntryView;

    open spec fn view(&self) -> EntryView {
        EntryView { name: self.name@, offset: self.offset, length: self.length }
    }
}

/// The header of an index file.
#[derive(Debug, PartialEq, Eq)]
pub struct IndexHeader {
    pub metadata: FullTextIndexMetadata,
    pub files: Vec<ArchiveFileEntry>,
}

/// The models of a list of entries.
pub open spec fn entry_list(files: Seq<ArchiveFileEntry>) -> Seq<EntryView> {
    files.map_values(|f: ArchiveFileEntry| f@)
}

/// A file of the index before it is placed: its name and its length.
#[derive(Debug, PartialEq, Eq)]
pub struct IndexFile {
    pub name: String,
    pub length: u64,
}

/// The length of the first `n` files together.
pub open spec fn length_of_first(files: Seq<IndexFile>, n: int) -> nat
    decreases n,
{
    if n <= 0 {
        0
    } else {
        length_of_first(files, n - 1) + files[n - 1].length as nat
    }
}

proof fn length_grows(files: Seq<IndexFile>, n: int, m: int)
    requires
        n <= m,
    ensures
        length_of_first(files, n) <= length_of_first(files, m),
    decreases m - n,
{
    if n < m {
        length_grows(files, n, m - 1);
    }
}

/// Whether the entries place the files one after the other, without a gap.
pub open spec fn places(entries: Seq<EntryView>, files: Seq<IndexFile>) -> bool {
    &&& entries.len() == files.len()
    &&& forall|i: int|
        0 <= i < files.len() ==> {
            &&& (#[trigger] entries[i]).name == files[i].name@
            &&& entries[i].offset == length_of_first(files, i)
            &&& entries[i].length == files[i].length
        }
}

/// Places the files one after the other. They are refused exactly if their length together does not
/// fit in 64 bits.
pub fn place_files(files: &Vec<IndexFile>) -> (r: Result<Vec<ArchiveFileEntry>, FtIndexError>)
    ensures
        match r {
            Ok(entries) => length_of_first(files@, files@.len() as int) <= u64::MAX && places(
                entry_list(entries@),
                files@,
            ),
            Err(e) => length_of_first(files@, files@.len() as int) > u64::MAX && e@
                == ErrorView::InvalidStorage("full-text archive size overflow"@),
        },
{
    let mut offset: u64 = 0;
    let mut entries: Vec<ArchiveFileEntry> = Vec::new();
    let mut i: usize = 0;
    while i < files.len()
        invariant
            i <= files.len(),
            offset == length_of_first(files@, i as int),
            entries.len() == i,
            forall|k: int|
                0 <= k < i ==> {
                    &&& (#[trigger] entries@[k]).name@ == files@[k].name@
                    &&& entries@[k].offset == length_of_first(files@, k)
                    &&& entries@[k].length == files@[k].length
                },
        decreases files.len() - i,
    {
        let length: u64 = files[i].length;
        entries.push(ArchiveFileEntry { name: files[i].name.clone(), offset, length });
        match offset.checked_add(length) {
            Some(next) => {
                offset = next;
            },
            None => {
                proof {
                    length_grows(files@, i + 1, files@.len() as int);
                }
                return Err(invalid_storage("full-text archive size overflow"));
            },
        }
        i = i + 1;
    }
    Ok(entries)
}

/// Placed files do not overlap, lie in their order, and none reaches past the length of all.
pub proof fn placed_files_are_apart(
    entries: Seq<EntryView>,
    files: Seq<IndexFile>,
    i: int,
    j: int,
)
    requires
        places(entries, files),
        0 <= i < j < entries.len(),
    ensures
        entries[i].offset + entries[i].length <= entries[j].offset,
        entries[j].offset + entries[j].length <= length_of_first(files, files.len() as int),
{
    length_grows(files, i + 1, j);
    length_grows(files, j + 1, files.len() as int);
}

/// The contents of the first `n` files, one after the other.
pub open spec fn contents_of_first(contents: Seq<Seq<u8>>, n: int) -> Seq<u8>
    decreases n,
{
    if n <= 0 {
        Seq::empty()
    } else {
        contents_of_first(contents, n - 1) + contents[n - 1]
    }
}

/// Whether each content has the length of its file.
pub open spec fn lengths_agree(contents: Seq<Seq<u8>>, files: Seq<IndexFile>) -> bool {
    &&& contents.len() == files.len()
    &&& forall|i: int| 0 <= i < files.len() ==> (#[trigger] contents[i]).len() == files[i].length
}

proof fn contents_length(contents: Seq<Seq<u8>>, files: Seq<IndexFile>, n: int)
    requires
        lengths_agree(contents, files),
        0 <= n <= files.len(),
    ensures
        contents_of_first(contents, n).len() == length_of_first(files, n),
    decreases n,
{
    if n > 0 {
        contents_length(contents, files, n - 1);
        assert(contents[n - 1].len() == files[n - 1].length);
    }
}

proof fn content_lies_at(contents: Seq<Seq<u8>>, files: Seq<IndexFile>, i: int, n: int)
    requires
        lengths_agree(contents, files),
        0 <= i < n <= files.len(),
    ensures
        length_of_first(files, i) + contents[i].len() <= contents_of_first(contents, n).len(),
        contents_of_first(contents, n).subrange(
            length_of_first(files, i) as int,
            (length_of_first(files, i) + contents[i].len()) as int,
        ) == contents[i],
    decreases n,
{
    contents_length(contents, files, n);
    contents_length(contents, files, n - 1);
    contents_length(contents, files, i);
    let at = length_of_first(files, i) as int;
    let end = at + contents[i].len();
    if i == n - 1 {
        assert(contents_of_first(contents, n).subrange(at, end) =~= contents[i]);
    } else {
        content_lies_at(contents, files, i, n - 1);
        assert(contents_of_first(contents, n).subrange(at, end) =~= contents_of_first(
            contents,
            n - 1,
        ).subrange(at, end));
    }
}

/// What is read of an index file at the place of one of its files is what was written there: the
/// prefix, the header and the files one after the other.
pub proof fn archive_reads_back(
    header: Seq<u8>,
    contents: Seq<Seq<u8>>,
    files: Seq<IndexFile>,
    entries: Seq<EntryView>,
    i: int,
)
    requires
        header.len() <= u32::MAX,
        lengths_agree(contents, files),
        places(entries, files),
        0 <= i < files.len(),
    ensures
        ({
            let whole = prefix_bytes(header.len() as u32) + header + contents_of_first(
                contents,
                contents.len() as int,
            );
            let body_start = PREFIX_LENGTH + header.len();
            let start = body_start + entries[i].offset;
            &&& prefix_problem(whole) is None
            &&& number_at(whole, 12) == header.len()
            &&& whole.subrange(PREFIX_LENGTH as int, body_start as int) == header
            &&& start + entries[i].length <= whole.len()
            &&& whole.subrange(start, start + entries[i].length) == contents[i]
        }),
{
    let body = contents_of_first(contents, contents.len() as int);
    let prefix = prefix_bytes(header.len() as u32);
    let whole = prefix + header + body;
    let body_start = PREFIX_LENGTH + header.len();
    let start = body_start + entries[i].offset;
    assert(prefix.len() == PREFIX_LENGTH);
    assert(whole =~= prefix + (header + body));
    prefix_reads_back(header.len() as u32, header + body);
    assert(whole.subrange(PREFIX_LENGTH as int, body_start as int) =~= header);
    content_lies_at(contents, files, i, contents.len() as int);
    contents_length(contents, files, contents.len() as int);
    assert(contents[i].len() == files[i].length);
    let at = entries[i].offset as int;
    assert(whole.subrange(start, start + entries[i].length) =~= body.subrange(
        at,
        at + entries[i].length,
    ));
}

/// The bytes of a file in the whole index file, if they can be addressed: where they start and
/// where they end.
pub fn file_range(body_start: u64, entry: &ArchiveFileEntry) -> (r: Option<(u64, u64)>)
    ensures
        match r {
            Some(range) => range.0 == body_start + entry.offset && range.1 == body_start
                + entry.offset + entry.length,
            None => body_start + entry.offset + entry.length > u64::MAX,
        },
{
    match body_start.checked_add(entry.offset) {
        Some(start) => match start.checked_add(entry.length) {
            Some(end) => Some((start, end)),
            None => None,
        },
        None => None,
    }
}

/// The eight bytes that an index file begins with.
pub open spec fn magic() -> Seq<u8> {
    seq![0x50u8, 0x46u8, 0x54u8, 0x49u8, 0x44u8, 0x58u8, 0x30u8, 0x31u8]
}

/// The four bytes of a number, low byte first.
pub open spec fn low_first(n: u32) -> Seq<u8> {
    seq![
        (n % 0x100) as u8,
        (n / 0x100 % 0x100) as u8,
        (n / 0x1_0000 % 0x100) as u8,
        (n / 0x100_0000) as u8,
    ]
}

/// The prefix of an index file with a header of this length.
pub open spec fn prefix_bytes(header_length: u32) -> Seq<u8> {
    magic() + low_first(FORMAT_VERSION) + low_first(header_length)
}

/// What is wrong with the prefix of an index file, if anything.
pub open spec fn prefix_problem(bytes: Seq<u8>) -> Option<ErrorView> {
    if bytes.len() < PREFIX_LENGTH {
        Some(ErrorView::InvalidStorage("index file is too short"@))
    } else if bytes.take(8) != magic() {
        Some(ErrorView::InvalidStorage("index file has no full-text index magic"@))
    } else if number_at(bytes, 8) != FORMAT_VERSION {
        Some(
            ErrorView::InvalidStorage(
                joined(
                    "unsupported index format version "@,
                    decimal(number_at(bytes, 8) as nat),
                    ""@,
                ),
            ),
        )
    } else {
        None
    }
}

/// The number whose four bytes, low byte first, stand at a place.
pub open spec fn number_at(bytes: Seq<u8>, at: int) -> u32 {
    (bytes[at] + 0x100 * bytes[at + 1] + 0x1_0000 * bytes[at + 2] + 0x100_0000 * bytes[at
        + 3]) as u32
}

fn push_low_first(out: &mut Vec<u8>, n: u32)
    ensures
        final(out)@ == old(out)@ + low_first(n),
{
    out.push((n % 0x100) as u8);
    out.push((n / 0x100 % 0x100) as u8);
    out.push((n / 0x1_0000 % 0x100) as u8);
    out.push((n / 0x100_0000) as u8);
    assert(out@ =~= old(out)@ + low_first(n));
}

fn read_number(bytes: &[u8], at: usize) -> (r: u32)
    requires
        at + 4 <= bytes@.len(),
    ensures
        r == number_at(bytes@, at as int),
{
    let b0: u32 = bytes[at] as u32;
    let b1: u32 = bytes[at + 1] as u32;
    let b2: u32 = bytes[at + 2] as u32;
    let b3: u32 = bytes[at + 3] as u32;
    b0 + 0x100 * b1 + 0x1_0000 * b2 + 0x100_0000 * b3
}

fn magic_bytes() -> (r: Vec<u8>)
    ensures
        r@ == magic(),
{
    let r = vec![0x50u8, 0x46u8, 0x54u8, 0x49u8, 0x44u8, 0x58u8, 0x30u8, 0x31u8];
    assert(r@ =~= magic());
    r
}

/// The prefix of an index file with a header of this length.
pub fn encode_prefix(header_length: u32) -> (r: Vec<u8>)
    ensures
        r@ == prefix_bytes(header_length),
{
    let mut out = magic_bytes();
    push_low_first(&mut out, FORMAT_VERSION);
    push_low_first(&mut out, header_length);
    out
}

/// The length of the header that the prefix of an index file gives.
pub fn decode_prefix(bytes: &[u8]) -> (r: Result<u32, FtIndexError>)
    ensures
        match (r, prefix_problem(bytes@)) {
            (Ok(length), None) => length == number_at(bytes@, 12),
            (Err(e), Some(p)) => e@ == p,
            _ => false,
        },
{
    if bytes.len() < 16 {
        return Err(invalid_storage("index file is too short"));
    }
    let expected = magic_bytes();
    let mut i: usize = 0;
    while i < 8
        invariant
            i <= 8,
            bytes@.len() >= 16,
            expected@ == magic(),
            forall|k: int| 0 <= k < i ==> bytes@[k] == magic()[k],
        decreases 8 - i,
    {
        if bytes[i] != expected[i] {
            assert(bytes@.take(8)[i as int] != magic()[i as int]);
            return Err(invalid_storage("index file has no full-text index magic"));
        }
        i = i + 1;
    }
    assert(bytes@.take(8) =~= magic());
    let version: u32 = read_number(bytes, 8);
    if version != FORMAT_VERSION {
        let digits = decimal_text(version as u64);
        let message = join("unsupported index format version ", digits.as_str(), "");
        return Err(FtIndexError::InvalidStorage(message));
    }
    Ok(read_number(bytes, 12))
}

/// A prefix that was written is read back: whatever follows it, it is accepted and gives the length
/// of the header.
pub proof fn prefix_reads_back(header_length: u32, rest: Seq<u8>)
    ensures
        prefix_problem(prefix_bytes(header_length) + rest) is None,
        number_at(prefix_bytes(header_length) + rest, 12) == header_length,
{
    let bytes = prefix_bytes(header_length) + rest;
    assert(bytes.take(8) =~= magic());
    number_reads_back(bytes, 8, FORMAT_VERSION);
    number_reads_back(bytes, 12, header_length);
}

proof fn number_reads_back(bytes: Seq<u8>, at: int, n: u32)
    requires
        0 <= at,
        at + 4 <= bytes.len(),
        forall|k: int| 0 <= k < 4 ==> bytes[at + k] == #[trigger] low_first(n)[k],
    ensures
        number_at(bytes, at) == n,
{
    assert(bytes[at + 0] == low_first(n)[0]);
    assert(bytes[at + 1] == low_first(n)[1]);
    assert(bytes[at + 2] == low_first(n)[2]);
    assert(bytes[at + 3] == low_first(n)[3]);
}

/// Whether `a` comes before `b`, or is `b`, byte by byte.
pub open spec fn bytes_ordered(a: Seq<u8>, b: Seq<u8>) -> bool
    decreases a.len(),
{
    if a.len() == 0 {
        true
    } else if b.len() == 0 {
        false
    } else {
        a[0] < b[0] || (a[0] == b[0] && bytes_ordered(a.skip(1), b.skip(1)))
    }
}

/// Whether the name `a` comes before `b`, or is `b`, by the bytes of the two names.
pub open spec fn names_ordered(a: Seq<char>, b: Seq<char>) -> bool {
    bytes_ordered(encode_utf8(a), encode_utf8(b))
}

/// Whether the names are in order.
pub open spec fn all_ordered(names: Seq<Seq<char>>) -> bool {
    forall|i: int, j: int|
        0 <= i < j < names.len() ==> names_ordered(#[trigger] names[i], #[trigger] names[j])
}

proof fn ordered_total(a: Seq<u8>, b: Seq<u8>)
    ensures
        bytes_ordered(a, b) || bytes_ordered(b, a),
    decreases a.len(),
{
    if a.len() > 0 && b.len() > 0 && a[0] == b[0] {
        ordered_total(a.skip(1), b.skip(1));
    }
}

proof fn ordered_transitive(a: Seq<u8>, b: Seq<u8>, c: Seq<u8>)
    requires
        bytes_ordered(a, b),
        bytes_ordered(b, c),
    ensures
        bytes_ordered(a, c),
    decreases a.len(),
{
    if a.len() > 0 && b.len() > 0 && c.len() > 0 && a[0] == b[0] && b[0] == c[0] {
        ordered_transitive(a.skip(1), b.skip(1), c.skip(1));
    }
}

fn in_order(a: &str, b: &str) -> (r: bool)
    ensures
        r == names_ordered(a@, b@),
{
    let x = a.as_bytes();
    let y = b.as_bytes();
    let mut i: usize = 0;
    assert(x@.skip(0) =~= x@);
    assert(y@.skip(0) =~= y@);
    while i < x.len() && i < y.len()
        invariant
            i <= x@.len(),
            i <= y@.len(),
            x@ == encode_utf8(a@),
            y@ == encode_utf8(b@),
            names_ordered(a@, b@) == bytes_ordered(x@.skip(i as int), y@.skip(i as int)),
        decreases x@.len() - i,
    {
        let p: u8 = x[i];
        let q: u8 = y[i];
        proof {
            assert(x@.skip(i as int).skip(1) =~= x@.skip(i + 1));
            assert(y@.skip(i as int).skip(1) =~= y@.skip(i + 1));
        }
        if p < q {
            return true;
        }
        if q < p {
            return false;
        }
        i = i + 1;
    }
    i >= x.len()
}

/// The characters that the name of a lock file ends with.
pub open spec fn is_lock_name(name: Seq<char>) -> bool {
    name.len() >= 5 && name.skip(name.len() - 5) == ".lock"@
}

fn is_lock(name: &str) -> (r: bool)
    ensures
        r == is_lock_name(name@),
{
    let n: usize = name.unicode_len();
    if n < 5 {
        return false;
    }
    let tail = name.substring_char(n - 5, n);
    assert(tail@ =~= name@.skip(n - 5));
    crate::text::same_text(tail, ".lock")
}

/// The names that can be read and are not those of lock files.
pub open spec fn kept_names(names: Seq<Option<String>>, n: int) -> Seq<Seq<char>>
    decreases n,
{
    if n <= 0 {
        Seq::empty()
    } else {
        let before = kept_names(names, n - 1);
        match names[n - 1] {
            Some(name) if !is_lock_name(name@) => before.push(name@),
            _ => before,
        }
    }
}

/// Puts a name where it belongs among names that are in order.
fn insert_in_order(names: &mut Vec<String>, name: String)
    requires
        all_ordered(text_views(old(names)@)),
    ensures
        all_ordered(text_views(final(names)@)),
        text_views(final(names)@).to_multiset() == text_views(old(names)@).to_multiset().insert(
            name@,
        ),
{
    let ghost before = text_views(names@);
    let mut at: usize = names.len();
    while at > 0 && !in_order(names[at - 1].as_str(), name.as_str())
        invariant
            at <= names.len(),
            before == text_views(names@),
            all_ordered(before),
            forall|k: int| at <= k < before.len() ==> names_ordered(name@, #[trigger] before[k]),
        decreases at,
    {
        proof {
            assert(before[at - 1] == names@[at - 1]@);
            ordered_total(encode_utf8(before[at - 1]), encode_utf8(name@));
        }
        at = at - 1;
    }
    proof {
        assert forall|k: int| 0 <= k < at implies names_ordered(#[trigger] before[k], name@) by {
            assert(before[at - 1] == names@[at - 1]@);
            if k < at - 1 {
                ordered_transitive(
                    encode_utf8(before[k]),
                    encode_utf8(before[at - 1]),
                    encode_utf8(name@),
                );
            }
        }
    }
    let ghost added = name@;
    names.insert(at, name);
    proof {
        let after = text_views(names@);
        assert(after =~= before.insert(at as int, added));
        assert(after.remove(at as int) =~= before);
        assert(after[at as int] == added);
        vstd::seq_lib::to_multiset_remove(after, at as int);
        vstd::seq_lib::to_multiset_contains(after, added);
        assert(after.to_multiset() =~= before.to_multiset().insert(added));
    }
}

/// The names of the files of an index that go into its archive: in order, without those of lock
/// files. A name that cannot be read is refused.
pub fn collect_index_files(names: &Vec<Option<String>>) -> (r: Result<Vec<String>, FtIndexError>)
    ensures
        match r {
            Ok(files) => {
                &&& forall|i: int| 0 <= i < names@.len() ==> #[trigger] names@[i] is Some
                &&& all_ordered(text_views(files@))
                &&& forall|i: int, j: int|
                    0 <= i < j < files@.len() ==> bytes_ordered(
                        encode_utf8((#[trigger] files@[i])@),
                        encode_utf8((#[trigger] files@[j])@),
                    )
                &&& text_views(files@).to_multiset() == kept_names(
                    names@,
                    names@.len() as int,
                ).to_multiset()
            },
            Err(e) => (exists|i: int| 0 <= i < names@.len() && #[trigger] names@[i] is None) && e@
                == ErrorView::InvalidStorage("non-utf8 file name"@),
        },
{
    let mut files: Vec<String> = Vec::new();
    let mut i: usize = 0;
    assert(text_views(files@) =~= Seq::<Seq<char>>::empty());
    while i < names.len()
        invariant
            i <= names.len(),
            forall|k: int| 0 <= k < i ==> #[trigger] names@[k] is Some,
            all_ordered(text_views(files@)),
            text_views(files@).to_multiset() == kept_names(names@, i as int).to_multiset(),
        decreases names.len() - i,
    {
        match &names[i] {
            Some(name) => {
                if !is_lock(name.as_str()) {
                    proof {
                        broadcast use vstd::seq_lib::group_to_multiset_ensures;
                    }
                    insert_in_order(&mut files, name.clone());
                }
            },
            None => {
                assert(names@[i as int] is None);
                return Err(invalid_storage("non-utf8 file name"));
            },
        }
        i = i + 1;
    }
    assert forall|k: int, m: int| 0 <= k < m < files@.len() implies bytes_ordered(
        encode_utf8((#[trigger] files@[k])@),
        encode_utf8((#[trigger] files@[m])@),
    ) by {
        assert(names_ordered(text_views(files@)[k], text_views(files@)[m]));
    }
    Ok(files)
}

/// The prefix is sixteen bytes long. It begins with the letters `PFTIDX01`, has the version one
/// behind them and then the length of the header, both in four bytes with the lowest first.
pub proof fn prefix_is_laid_out(header_length: u32)
    ensures
        ({
            let p = prefix_bytes(header_length);
            &&& p.len() == 16
            &&& p[0] == 0x50 && p[1] == 0x46 && p[2] == 0x54 && p[3] == 0x49
            &&& p[4] == 0x44 && p[5] == 0x58 && p[6] == 0x30 && p[7] == 0x31
            &&& p[8] == 1 && p[9] == 0 && p[10] == 0 && p[11] == 0
            &&& p[12] + 0x100 * p[13] + 0x1_0000 * p[14] + 0x100_0000 * p[15] == header_length
        }),
{
}

/// A prefix is accepted exactly if it is one that is written: long enough, with the letters and the
/// version in their places. It gives the length that its last four bytes write.
pub proof fn accepted_prefixes(bytes: Seq<u8>)
    ensures
        prefix_problem(bytes) is None <==> {
            &&& bytes.len() >= 16
            &&& bytes[0] == 0x50 && bytes[1] == 0x46 && bytes[2] == 0x54 && bytes[3] == 0x49
            &&& bytes[4] == 0x44 && bytes[5] == 0x58 && bytes[6] == 0x30 && bytes[7] == 0x31
            &&& bytes[8] == 1 && bytes[9] == 0 && bytes[10] == 0 && bytes[11] == 0
        },
        number_at(bytes, 12) == bytes[12] + 0x100 * bytes[13] + 0x1_0000 * bytes[14] + 0x100_0000
            * bytes[15],
        prefix_problem(bytes) matches Some(e) ==> e is InvalidStorage,
{
    if bytes.len() >= 16 {
        let head = bytes.take(8);
        if bytes[0] == 0x50 && bytes[1] == 0x46 && bytes[2] == 0x54 && bytes[3] == 0x49 && bytes[4]
            == 0x44 && bytes[5] == 0x58 && bytes[6] == 0x30 && bytes[7] == 0x31 {
            assert(head =~= magic());
        } else {
            assert(head[0] == bytes[0] && head[1] == bytes[1] && head[2] == bytes[2] && head[3]
                == bytes[3] && head[4] == bytes[4] && head[5] == bytes[5] && head[6] == bytes[6]
                && head[7] == bytes[7]);
        }
    }
}

/// Whether the last five characters of a name are `.lock`.
pub open spec fn ends_in_lock(name: Seq<char>) -> bool {
    let n = name.len() as int;
    n >= 5 && name[n - 5] == '.' && name[n - 4] == 'l' && name[n - 3] == 'o' && name[n - 2] == 'c'
        && name[n - 1] == 'k'
}

/// Of the names that are given, those that do not end in `.lock` are kept, and no others.
pub proof fn lock_files_are_left_out(names: Seq<Option<String>>, n: int, name: Seq<char>)
    requires
        0 <= n <= names.len(),
    ensures
        kept_names(names, n).contains(name) <==> !ends_in_lock(name) && exists|i: int|
            0 <= i < n && ((#[trigger] names[i]) matches Some(s) && s@ == name),
    decreases n,
{
    if n > 0 {
        lock_files_are_left_out(names, n - 1, name);
        let before = kept_names(names, n - 1);
        let now = kept_names(names, n);
        if let Some(s) = names[n - 1] {
            lock_names(s@);
            if !is_lock_name(s@) {
                assert(now[before.len() as int] == s@);
                if before.contains(name) {
                    let k = choose|k: int| 0 <= k < before.len() && before[k] == name;
                    assert(now[k] == name);
                }
                if now.contains(name) {
                    let k = choose|k: int| 0 <= k < now.len() && now[k] == name;
                    if k < before.len() {
                        assert(before[k] == name);
                    }
                }
            }
        }
    }
}

/// Every name that is kept is kept as often as it is given.
pub proof fn kept_names_are_counted(names: Seq<Option<String>>, n: int, s: String)
    requires
        0 <= n < names.len(),
        names[n] == Some(s),
    ensures
        kept_names(names, n + 1) == (if ends_in_lock(s@) {
            kept_names(names, n)
        } else {
            kept_names(names, n).push(s@)
        }),
{
    lock_names(s@);
}

proof fn lock_names(name: Seq<char>)
    ensures
        is_lock_name(name) <==> ends_in_lock(name),
{
    reveal_strlit(".lock");
    let n = name.len() as int;
    if n >= 5 {
        let tail = name.skip(n - 5);
        if ends_in_lock(name) {
            assert(tail =~= ".lock"@);
        } else {
            assert(tail[0] == name[n - 5] && tail[1] == name[n - 4] && tail[2] == name[n - 3]
                && tail[3] == name[n - 2] && tail[4] == name[n - 1]);
        }
    }
}

/// Bytes come before others, or are the same, exactly if they are the beginning of the others or are
/// smaller at the first place at which the two differ.
pub proof fn bytes_are_ordered_by_the_first_difference(a: Seq<u8>, b: Seq<u8>)
    ensures
        bytes_ordered(a, b) <==> a.is_prefix_of(b) || exists|k: int|
            0 <= k < a.len() && k < b.len() && #[trigger] a[k] < b[k] && a.take(k) == b.take(k),
    decreases a.len(),
{
    if a.len() == 0 {
        assert(a =~= b.subrange(0, 0));
    } else if b.len() > 0 {
        let x = a.skip(1);
        let y = b.skip(1);
        bytes_are_ordered_by_the_first_difference(x, y);
        if a[0] < b[0] {
            assert(a.take(0) =~= b.take(0));
        }
        if a[0] == b[0] {
            if x.is_prefix_of(y) {
                assert(a =~= b.subrange(0, a.len() as int)) by {
                    assert forall|i: int| 0 <= i < a.len() implies a[i] == b[i] by {
                        if i > 0 {
                            assert(x[i - 1] == y.subrange(0, x.len() as int)[i - 1]);
                        }
                    }
                }
            }
            if a.is_prefix_of(b) {
                assert(x =~= y.subrange(0, x.len() as int)) by {
                    assert forall|i: int| 0 <= i < x.len() implies x[i] == y[i] by {
                        assert(a[i + 1] == b.subrange(0, a.len() as int)[i + 1]);
                    }
                }
            }
            if exists|k: int|
                0 <= k < x.len() && k < y.len() && #[trigger] x[k] < y[k] && x.take(k) == y.take(
                    k,
                ) {
                let k = choose|k: int|
                    0 <= k < x.len() && k < y.len() && #[trigger] x[k] < y[k] && x.take(k)
                        == y.take(k);
                assert(a[k + 1] < b[k + 1]);
                assert(a.take(k + 1) =~= b.take(k + 1)) by {
                    assert forall|i: int| 0 <= i < k + 1 implies a[i] == b[i] by {
                        if i > 0 {
                            assert(x.take(k)[i - 1] == y.take(k)[i - 1]);
                        }
                    }
                }
            }
        }
        if exists|k: int|
            0 <= k < a.len() && k < b.len() && #[trigger] a[k] < b[k] && a.take(k) == b.take(k) {
            let k = choose|k: int|
                0 <= k < a.len() && k < b.len() && #[trigger] a[k] < b[k] && a.take(k) == b.take(
                    k,
                );
            if k > 0 {
                assert(a.take(k)[0] == b.take(k)[0]);
                assert(x[k - 1] < y[k - 1]);
                assert(x.take(k - 1) =~= y.take(k - 1)) by {
                    assert forall|i: int| 0 <= i < k - 1 implies x[i] == y[i] by {
                        assert(a.take(k)[i + 1] == b.take(k)[i + 1]);
                    }
                }
            }
        }
        if a.is_prefix_of(b) {
            assert(a[0] == b.subrange(0, a.len() as int)[0]);
        }
    }
}

} // verus!

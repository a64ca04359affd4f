//! Splitting large files into size-tiered chunks and putting them together
//! again: the plan of a split, the check and order of a reassembly, and the
//! recognition of chunk files by name.

use vstd::prelude::*;
use vstd::string::*;

use crate::error::{Error, Result};
use crate::text::{
    decimal, from_chars, last_match, parse_number, parse_unsigned, push_decimal, rfind, slice,
    to_chars, to_decimal,
};

verus! {

broadcast use vstd::seq_lib::group_to_multiset_ensures;

/// One mebibyte, in bytes.
pub const MIB: u64 = 1048576;

/// One gibibyte, in bytes.
pub const GIB: u64 = 1073741824;

/// Thresholds and chunk sizes of the splitter, and transfer concurrency.
#[derive(Clone, Copy, Debug)]
pub struct ChunkingConfig {
    /// Files smaller than this are not chunked.
    pub min_chunk_threshold: u64,
    /// Chunk size for files below the medium threshold.
    pub small_chunk_size: u64,
    /// Chunk size for files from the medium threshold up to the large one.
    pub medium_chunk_size: u64,
    /// Chunk size for files from the large threshold on.
    pub large_chunk_size: u64,
    /// Size from which a file counts as large.
    pub large_file_threshold: u64,
    /// Size from which a file counts as medium.
    pub medium_file_threshold: u64,
    /// Number of concurrent transfers.
    pub oras_concurrency: u32,
    /// Number of concurrent uploads, where it differs.
    pub oras_push_concurrency: Option<u32>,
    /// Number of concurrent downloads, where it differs.
    pub oras_pull_concurrency: Option<u32>,
}

/// The configuration used when none is given: chunk from 100 MiB on, in
/// chunks of 100 MiB, of 250 MiB from 2 GiB on and of 500 MiB from 10 GiB on,
/// with ten concurrent transfers.
pub open spec fn default_config() -> ChunkingConfig {
    ChunkingConfig {
        min_chunk_threshold: (100 * MIB) as u64,
        small_chunk_size: (100 * MIB) as u64,
        medium_chunk_size: (250 * MIB) as u64,
        large_chunk_size: (500 * MIB) as u64,
        medium_file_threshold: (2 * GIB) as u64,
        large_file_threshold: (10 * GIB) as u64,
        oras_concurrency: 10,
        oras_push_concurrency: None,
        oras_pull_concurrency: None,
    }
}

impl Default for ChunkingConfig {
    fn default() -> (r: Self)
        ensures
            r == default_config(),
    {
        ChunkingConfig {
            min_chunk_threshold: 100 * MIB,
            small_chunk_size: 100 * MIB,
            medium_chunk_size: 250 * MIB,
            large_chunk_size: 500 * MIB,
            medium_file_threshold: 2 * GIB,
            large_file_threshold: 10 * GIB,
            oras_concurrency: 10,
            oras_push_concurrency: None,
            oras_pull_concurrency: None,
        }
    }
}

impl ChunkingConfig {
    /// The chunk size of the tier that a file of `file_size` bytes falls in.
    pub open spec fn tier_size(self, file_size: u64) -> u64 {
        if file_size >= self.large_file_threshold {
            self.large_chunk_size
        } else if file_size >= self.medium_file_threshold {
            self.medium_chunk_size
        } else {
            self.small_chunk_size
        }
    }

    /// The number of concurrent uploads.
    pub fn get_push_concurrency(&self) -> (r: u32)
        ensures
            r == match self.oras_push_concurrency {
                Some(n) => n,
                None => self.oras_concurrency,
            },
    {
        match self.oras_push_concurrency {
            Some(n) => n,
            None => self.oras_concurrency,
        }
    }

    /// The number of concurrent downloads.
    pub fn get_pull_concurrency(&self) -> (r: u32)
        ensures
            r == match self.oras_pull_concurrency {
                Some(n) => n,
                None => self.oras_concurrency,
            },
    {
        match self.oras_pull_concurrency {
            Some(n) => n,
            None => self.oras_concurrency,
        }
    }
}

/// What is known of a chunked file as a whole.
#[derive(Debug, Clone)]
pub struct ChunkMetadata {
    /// Name of the file that was split.
    pub original_filename: String,
    /// Number of chunks.
    pub total_chunks: usize,
    /// Size of the first chunk, for reference.
    pub chunk_size: u64,
    /// Size of the whole file.
    pub total_size: u64,
    /// Digest of the whole file, where one was computed.
    pub sha256: Option<String>,
}

/// One chunk of a split file.
#[derive(Debug, Clone)]
pub struct ChunkInfo {
    /// Where the chunk's bytes are kept.
    pub chunk_path: String,
    /// Position of the chunk in the file, from 0.
    pub chunk_index: usize,
    /// Number of bytes in the chunk.
    pub chunk_size: u64,
}

/// A chunk as the contracts see it.
pub struct ChunkInfoView {
    /// Where the chunk's bytes are kept.
    pub chunk_path: Seq<char>,
    /// Position of the chunk in the file, from 0.
    pub chunk_index: usize,
    /// Number of bytes in the chunk.
    pub chunk_size: u64,
}

impl View for ChunkInfo {
    type V = ChunkInfoView;

    open spec fn view(&self) -> ChunkInfoView {
        ChunkInfoView {
            chunk_path: self.chunk_path@,
            chunk_index: self.chunk_index,
            chunk_size: self.chunk_size,
        }
    }
}

/// The chunks of `chunks` as the contracts see them.
pub open spec fn chunk_views(chunks: Seq<ChunkInfo>) -> Seq<ChunkInfoView> {
    chunks.map_values(|c: ChunkInfo| c@)
}

/// `s` with `x` put behind the last chunk whose index is not greater than `x`'s.
pub open spec fn insert_by_index(s: Seq<ChunkInfoView>, x: ChunkInfoView) -> Seq<ChunkInfoView>
    decreases s.len(),
{
    if s.len() == 0 {
        seq![x]
    } else if s.last().chunk_index <= x.chunk_index {
        s.push(x)
    } else {
        insert_by_index(s.drop_last(), x).push(s.last())
    }
}

/// The chunks of `s` in ascending order of index; chunks of equal index keep
/// the order they had.
pub open spec fn sort_by_index(s: Seq<ChunkInfoView>) -> Seq<ChunkInfoView>
    decreases s.len(),
{
    if s.len() == 0 {
        Seq::<ChunkInfoView>::empty()
    } else {
        insert_by_index(sort_by_index(s.drop_last()), s.last())
    }
}

/// The indices of `s` never go down from one chunk to the next.
pub open spec fn ascending(s: Seq<ChunkInfoView>) -> bool {
    forall|a: int, b: int| 0 <= a < b < s.len() ==> s[a].chunk_index <= s[b].chunk_index
}

/// Where `x` is put: `p` is the place behind which no chunk has an index
/// greater than `x`'s and from which every chunk has.
pub proof fn lemma_insert_place(s: Seq<ChunkInfoView>, x: ChunkInfoView, p: int)
    requires
        0 <= p <= s.len(),
        p > 0 ==> s[p - 1].chunk_index <= x.chunk_index,
        forall|q: int| p <= q < s.len() ==> s[q].chunk_index > x.chunk_index,
    ensures
        insert_by_index(s, x) == s.insert(p, x),
    decreases s.len() - p,
{
    if p == s.len() {
        assert(s.insert(p, x) =~= s.push(x));
    } else {
        lemma_insert_place(s.drop_last(), x, p);
        assert(s.drop_last().insert(p, x).push(s.last()) =~= s.insert(p, x));
    }
}

/// Putting a chunk into an ascending sequence keeps it ascending, and adds
/// just that chunk.
pub proof fn lemma_insert_by_index(s: Seq<ChunkInfoView>, x: ChunkInfoView)
    requires
        ascending(s),
    ensures
        ascending(insert_by_index(s, x)),
        insert_by_index(s, x).to_multiset() == s.to_multiset().insert(x),
        insert_by_index(s, x).len() == s.len() + 1,
    decreases s.len(),
{
    if s.len() == 0 {
        assert(seq![x] =~= Seq::<ChunkInfoView>::empty().push(x));
    } else if s.last().chunk_index <= x.chunk_index {
    } else {
        let t = s.drop_last();
        lemma_insert_by_index(t, x);
        let r = insert_by_index(t, x);
        assert(s == t.push(s.last()));
        assert forall|a: int| 0 <= a < r.len() implies r[a].chunk_index <= s.last().chunk_index by {
            assert(r.to_multiset().count(r[a]) > 0);
            if r[a] != x {
                assert(t.to_multiset().count(r[a]) > 0);
                let k = choose|k: int| 0 <= k < t.len() && t[k] == r[a];
                assert(s[k] == t[k]);
            }
        }
        assert(r.push(s.last()).to_multiset() =~= s.to_multiset().insert(x));
    }
}

/// Sorting keeps every chunk, as often as it occurs, and puts the indices in
/// ascending order.
pub proof fn lemma_sort_by_index(s: Seq<ChunkInfoView>)
    ensures
        ascending(sort_by_index(s)),
        sort_by_index(s).to_multiset() == s.to_multiset(),
        sort_by_index(s).len() == s.len(),
    decreases s.len(),
{
    if s.len() > 0 {
        lemma_sort_by_index(s.drop_last());
        lemma_insert_by_index(sort_by_index(s.drop_last()), s.last());
        assert(s == s.drop_last().push(s.last()));
    }
}

/// Sorting leaves an ascending sequence as it is.
pub proof fn lemma_sort_ascending(s: Seq<ChunkInfoView>)
    requires
        ascending(s),
    ensures
        sort_by_index(s) == s,
    decreases s.len(),
{
    if s.len() > 0 {
        lemma_sort_ascending(s.drop_last());
        assert(s == s.drop_last().push(s.last()));
        if s.len() > 1 {
            assert(s.drop_last().last() == s[s.len() - 2]);
        }
    }
}

/// The bytes of all the chunks of `s` together.
pub open spec fn total_bytes(s: Seq<ChunkInfoView>) -> nat
    decreases s.len(),
{
    if s.len() == 0 {
        0
    } else {
        total_bytes(s.drop_last()) + s.last().chunk_size as nat
    }
}

/// The first chunks of `s` hold no more bytes than all of them.
pub proof fn lemma_total_bytes_prefix(s: Seq<ChunkInfoView>, k: int)
    requires
        0 <= k <= s.len(),
    ensures
        total_bytes(s.subrange(0, k)) <= total_bytes(s),
    decreases s.len() - k,
{
    if k == s.len() {
        assert(s.subrange(0, k) == s);
    } else {
        lemma_total_bytes_prefix(s, k + 1);
        assert(s.subrange(0, k + 1).drop_last() == s.subrange(0, k));
    }
}

/// The number of chunks of `chunk_size` bytes that hold `file_size` bytes.
pub open spec fn chunk_count(file_size: nat, chunk_size: nat) -> nat {
    if chunk_size == 0 {
        0
    } else if file_size % chunk_size == 0 {
        file_size / chunk_size
    } else {
        file_size / chunk_size + 1
    }
}

/// The number of bytes in chunk `i`: a full chunk, or for the last one what is left.
pub open spec fn chunk_len(file_size: nat, chunk_size: nat, i: nat) -> nat {
    if (i + 1) * chunk_size <= file_size {
        chunk_size
    } else {
        (file_size - i * chunk_size) as nat
    }
}

/// `n` in base ten, with zeros in front up to three digits.
pub open spec fn padded_index(n: nat) -> Seq<char> {
    if n < 10 {
        seq!['0', '0'] + decimal(n)
    } else if n < 100 {
        seq!['0'] + decimal(n)
    } else {
        decimal(n)
    }
}

/// The name of chunk `i` of the file `filename`.
pub open spec fn chunk_name(filename: Seq<char>, i: nat) -> Seq<char> {
    filename + ".chunk."@ + padded_index(i)
}

/// The path of chunk `i` of the file `filename` under `dir`.
pub open spec fn chunk_path(dir: Seq<char>, filename: Seq<char>, i: nat) -> Seq<char> {
    dir + "/"@ + chunk_name(filename, i)
}

/// Chunk `i` starts inside the file and ends inside it.
pub proof fn lemma_chunk_bounds(file_size: nat, chunk_size: nat, i: nat)
    requires
        chunk_size > 0,
        i < chunk_count(file_size, chunk_size),
    ensures
        i * chunk_size < file_size,
        0 < chunk_len(file_size, chunk_size, i) <= chunk_size,
        i * chunk_size + chunk_len(file_size, chunk_size, i) <= file_size,
        i + 1 == chunk_count(file_size, chunk_size) ==> i * chunk_size + chunk_len(
            file_size,
            chunk_size,
            i,
        ) == file_size,
        i + 1 < chunk_count(file_size, chunk_size) ==> chunk_len(file_size, chunk_size, i)
            == chunk_size,
{
    let q = file_size / chunk_size;
    let r = file_size % chunk_size;
    assert(file_size == q * chunk_size + r && 0 <= r < chunk_size) by {
        vstd::arithmetic::div_mod::lemma_fundamental_div_mod(file_size as int, chunk_size as int);
        vstd::arithmetic::div_mod::lemma_mod_bound(file_size as int, chunk_size as int);
        assert(chunk_size * q == q * chunk_size) by (nonlinear_arith);
    }
    if i < q {
        assert((i + 1) * chunk_size <= q * chunk_size) by (nonlinear_arith)
            requires
                i + 1 <= q,
                chunk_size > 0,
        ;
        assert((i + 1) * chunk_size == i * chunk_size + chunk_size) by (nonlinear_arith);
        if i + 1 == chunk_count(file_size, chunk_size) {
            assert(r == 0);
            assert(i + 1 == q);
        }
    } else {
        assert(i == q && r > 0);
        assert((i + 1) * chunk_size == i * chunk_size + chunk_size) by (nonlinear_arith);
    }
}

/// `m` and `chunks` are the split of a file named `filename`, of `file_size`
/// bytes, into chunks of `chunk_size` bytes kept under `dir`.
pub open spec fn is_split_plan(
    m: ChunkMetadata,
    chunks: Seq<ChunkInfoView>,
    filename: Seq<char>,
    file_size: u64,
    chunk_size: u64,
    dir: Seq<char>,
) -> bool {
    &&& m.original_filename@ == filename
    &&& m.total_chunks as nat == chunk_count(file_size as nat, chunk_size as nat)
    &&& m.chunk_size == chunk_size
    &&& m.total_size == file_size
    &&& m.sha256 is None
    &&& chunks.len() == m.total_chunks
    &&& forall|i: int|
        0 <= i < chunks.len() ==> #[trigger] chunks[i] == (ChunkInfoView {
            chunk_path: chunk_path(dir, filename, i as nat),
            chunk_index: i as usize,
            chunk_size: chunk_len(file_size as nat, chunk_size as nat, i as nat) as u64,
        })
}

/// A file of `file_size` bytes is split under `config`: it reaches the
/// threshold, its chunk size is not zero, and its chunks can be counted.
pub open spec fn splits(config: ChunkingConfig, file_size: u64) -> bool {
    &&& file_size >= config.min_chunk_threshold
    &&& config.tier_size(file_size) > 0
    &&& chunk_count(file_size as nat, config.tier_size(file_size) as nat) <= usize::MAX
}

/// `chunks` make up the file that `m` describes: as many as it says, with the
/// indices 0, 1, 2, ... once they are sorted, and with its number of bytes.
pub open spec fn reassembles(chunks: Seq<ChunkInfoView>, m: ChunkMetadata) -> bool {
    &&& chunks.len() == m.total_chunks
    &&& forall|i: int|
        0 <= i < chunks.len() ==> (#[trigger] sort_by_index(chunks)[i]).chunk_index == i
    &&& total_bytes(chunks) == m.total_size
}

/// No chunk of `chunks` has the index `i`.
pub open spec fn lacks_index(chunks: Seq<ChunkInfoView>, i: int) -> bool {
    forall|j: int| 0 <= j < chunks.len() ==> (#[trigger] chunks[j]).chunk_index != i
}

/// The text that marks a chunk's name, between the file's name and the index.
pub open spec fn marker() -> Seq<char> {
    ".chunk."@
}

/// `filename` names chunk `index` of the file `original`: it is `original`,
/// then the last marker in it, then `index` in digits.
pub open spec fn is_chunk_name(filename: Seq<char>, original: Seq<char>, index: nat) -> bool {
    exists|p: int|
        {
            &&& #[trigger] last_match(filename, marker(), p)
            &&& original == filename.subrange(0, p)
            &&& parse_unsigned(
                filename.subrange(p + marker().len(), filename.len() as int),
                usize::MAX as nat,
            ) == Some(index)
        }
}

/// A regular file found in a directory.
#[derive(Debug, Clone)]
pub struct FileEntry {
    /// The file's name, without the directory.
    pub name: String,
    /// The file's path.
    pub path: String,
    /// The file's size in bytes.
    pub size: u64,
}

/// The chunks found for one file, with what is known of the whole.
#[derive(Debug, Clone)]
pub struct ChunkGroup {
    /// Name of the file that the chunks belong to.
    pub original_filename: String,
    /// What the chunks found say of the whole file.
    pub metadata: ChunkMetadata,
    /// The chunks found, in ascending order of index.
    pub chunks: Vec<ChunkInfo>,
}

/// `name` names a chunk of the file `original`.
pub open spec fn belongs_to(name: Seq<char>, original: Seq<char>) -> bool {
    exists|i: nat| is_chunk_name(name, original, i)
}

/// The index that `name` gives for a chunk of the file `original`.
pub open spec fn index_in(name: Seq<char>, original: Seq<char>) -> nat {
    choose|i: nat| is_chunk_name(name, original, i)
}

/// The chunks of the file `original` among `files`, in the order of `files`.
pub open spec fn members(files: Seq<FileEntry>, original: Seq<char>) -> Seq<ChunkInfoView>
    decreases files.len(),
{
    if files.len() == 0 {
        Seq::<ChunkInfoView>::empty()
    } else {
        let rest = members(files.drop_last(), original);
        let f = files.last();
        if belongs_to(f.name@, original) {
            rest.push(
                ChunkInfoView {
                    chunk_path: f.path@,
                    chunk_index: index_in(f.name@, original) as usize,
                    chunk_size: f.size,
                },
            )
        } else {
            rest
        }
    }
}

/// `g` holds all the chunks of its file that are among `files`, sorted, and
/// describes the whole by them: their number, the first one's size, and the
/// sum of their sizes, which stops at the largest number that fits.
pub open spec fn is_group_of(g: ChunkGroup, files: Seq<FileEntry>) -> bool {
    let all = members(files, g.original_filename@);
    &&& all.len() > 0
    &&& chunk_views(g.chunks@) == sort_by_index(all)
    &&& g.metadata.original_filename@ == g.original_filename@
    &&& g.metadata.total_chunks == all.len()
    &&& g.metadata.chunk_size == sort_by_index(all)[0].chunk_size
    &&& g.metadata.total_size as nat == (if total_bytes(all) <= u64::MAX {
        total_bytes(all)
    } else {
        u64::MAX as nat
    })
    &&& g.metadata.sha256 is None
}

/// One of the first `k` files of `files` is a chunk of the file `original`.
pub open spec fn seen(files: Seq<FileEntry>, k: int, original: Seq<char>) -> bool {
    exists|j: int| 0 <= j < k && belongs_to(#[trigger] files[j].name@, original)
}

/// A name is a chunk's name in one way only.
pub proof fn lemma_chunk_name_unique(
    name: Seq<char>,
    o1: Seq<char>,
    i1: nat,
    o2: Seq<char>,
    i2: nat,
)
    requires
        is_chunk_name(name, o1, i1),
        is_chunk_name(name, o2, i2),
    ensures
        o1 == o2,
        i1 == i2,
{
    let p = choose|p: int|
        {
            &&& #[trigger] last_match(name, marker(), p)
            &&& o1 == name.subrange(0, p)
            &&& parse_unsigned(
                name.subrange(p + marker().len(), name.len() as int),
                usize::MAX as nat,
            ) == Some(i1)
        };
    let q = choose|q: int|
        {
            &&& #[trigger] last_match(name, marker(), q)
            &&& o2 == name.subrange(0, q)
            &&& parse_unsigned(
                name.subrange(q + marker().len(), name.len() as int),
                usize::MAX as nat,
            ) == Some(i2)
        };
    assert(p == q);
}

/// The padded index of a chunk is made of digits, and reads back as the index.
pub proof fn lemma_padded_index(i: nat)
    requires
        i <= usize::MAX,
    ensures
        padded_index(i).len() >= 1,
        crate::text::all_digits(padded_index(i)),
        parse_unsigned(padded_index(i), usize::MAX as nat) == Some(i),
{
    crate::text::lemma_decimal(i);
    let d = decimal(i);
    let zeros: Seq<char> = if i < 10 {
        seq!['0', '0']
    } else if i < 100 {
        seq!['0']
    } else {
        Seq::empty()
    };
    assert(padded_index(i) =~= zeros + d);
    crate::text::lemma_leading_zeros(zeros, d);
    assert forall|k: int| 0 <= k < (zeros + d).len() implies crate::text::is_digit(
        #[trigger] (zeros + d)[k],
    ) by {
        if k >= zeros.len() {
            assert((zeros + d)[k] == d[k - zeros.len()]);
        }
    }
    assert(crate::text::is_digit((zeros + d)[0]));
}

/// What a split writes, detection reads: the name of chunk `i` of a file is
/// a chunk name of that file with the index `i`.
pub proof fn law_chunk_name_is_detected(filename: Seq<char>, i: nat)
    requires
        i <= usize::MAX,
    ensures
        is_chunk_name(chunk_name(filename, i), filename, i),
{
    reveal_strlit(".chunk.");
    lemma_padded_index(i);
    let digits = padded_index(i);
    let name = chunk_name(filename, i);
    let p = filename.len() as int;
    assert(name.len() == p + 7 + digits.len());
    assert(name.subrange(p, p + 7) =~= marker());
    assert(name.subrange(0, p) =~= filename);
    assert(name.subrange(p + 7, name.len() as int) =~= digits);
    assert forall|j: int| p < j implies !crate::text::match_at(name, marker(), j) by {
        if crate::text::match_at(name, marker(), j) {
            let found = name.subrange(j, j + 7);
            assert(found[0] == '.');
            assert(found[1] == 'c');
            assert(found[0] == name[j]);
            assert(found[1] == name[j + 1]);
            if j < p + 7 {
                assert(name[j] == marker()[j - p]);
                assert(j == p + 6);
                assert(name[j + 1] == digits[0]);
                assert(crate::text::is_digit(digits[0]));
            } else {
                assert(name[j] == digits[j - p - 7]);
                assert(crate::text::is_digit(digits[j - p - 7]));
            }
        }
    }
    assert(last_match(name, marker(), p));
}

/// A file that has a chunk among `files` has a member there.
pub proof fn lemma_members_nonempty(files: Seq<FileEntry>, original: Seq<char>, j: int)
    requires
        0 <= j < files.len(),
        belongs_to(files[j].name@, original),
    ensures
        members(files, original).len() > 0,
    decreases files.len(),
{
    if j < files.len() - 1 {
        lemma_members_nonempty(files.drop_last(), original, j);
    }
}

/// The name of chunk `i` of the file `filename`.
pub fn chunk_file_name(filename: &str, i: usize) -> (r: String)
    ensures
        r@ == chunk_name(filename@, i as nat),
{
    let mut digits: Vec<char> = Vec::new();
    if i < 10 {
        digits.push('0');
        digits.push('0');
    } else if i < 100 {
        digits.push('0');
    }
    push_decimal(&mut digits, i as u64);
    assert(digits@ =~= padded_index(i as nat));
    crate::text::wrap(filename, ".chunk.", from_chars(&digits).as_str())
}

/// A copy of `c`.
pub fn copy_chunk(c: &ChunkInfo) -> (r: ChunkInfo)
    ensures
        r == *c,
{
    ChunkInfo {
        chunk_path: c.chunk_path.clone(),
        chunk_index: c.chunk_index,
        chunk_size: c.chunk_size,
    }
}

/// The chunks in ascending order of index; chunks of equal index keep the
/// order they had.
pub fn sort_chunks(chunks: &Vec<ChunkInfo>) -> (r: Vec<ChunkInfo>)
    ensures
        chunk_views(r@) == sort_by_index(chunk_views(chunks@)),
        r.len() == chunks.len(),
{
    let mut out: Vec<ChunkInfo> = Vec::new();
    let mut k: usize = 0;
    assert(chunk_views(chunks@).subrange(0, 0) =~= Seq::<ChunkInfoView>::empty());
    assert(chunk_views(out@) =~= Seq::<ChunkInfoView>::empty());
    while k < chunks.len()
        invariant
            k <= chunks.len(),
            out.len() == k,
            chunk_views(out@) == sort_by_index(chunk_views(chunks@).subrange(0, k as int)),
        decreases chunks.len() - k,
    {
        let x = copy_chunk(&chunks[k]);
        let mut p: usize = out.len();
        while p > 0 && out[p - 1].chunk_index > x.chunk_index
            invariant
                p <= out.len(),
                forall|q: int| p <= q < out.len() ==> out@[q].chunk_index > x.chunk_index,
            decreases p,
        {
            p -= 1;
        }
        let ghost before = chunk_views(out@);
        let ghost prefix = chunk_views(chunks@).subrange(0, k as int);
        let ghost next = chunk_views(chunks@).subrange(0, k + 1);
        proof {
            lemma_insert_place(before, x@, p as int);
            assert(next.drop_last() == prefix);
            assert(next.last() == x@);
        }
        out.insert(p, x);
        assert(chunk_views(out@) =~= before.insert(p as int, x@));
        k += 1;
    }
    assert(chunk_views(chunks@).subrange(0, k as int) == chunk_views(chunks@));
    out
}

/// The bytes that chunk `c` holds of the file `data`, split by `chunk_size`.
pub open spec fn chunk_data(data: Seq<u8>, chunk_size: nat, c: ChunkInfoView) -> Seq<u8> {
    data.subrange(c.chunk_index * chunk_size, c.chunk_index * chunk_size + c.chunk_size)
}

/// The bytes of the chunks of `order`, one after the other.
pub open spec fn joined(data: Seq<u8>, chunk_size: nat, order: Seq<ChunkInfoView>) -> Seq<u8>
    decreases order.len(),
{
    if order.len() == 0 {
        Seq::<u8>::empty()
    } else {
        joined(data, chunk_size, order.drop_last()) + chunk_data(data, chunk_size, order.last())
    }
}

/// The first `k` chunks of a split hold the first bytes of the file, as far
/// as `k` chunks reach.
proof fn lemma_split_prefix(
    data: Seq<u8>,
    m: ChunkMetadata,
    chunks: Seq<ChunkInfoView>,
    filename: Seq<char>,
    chunk_size: u64,
    dir: Seq<char>,
    k: int,
)
    requires
        chunk_size > 0,
        data.len() <= u64::MAX,
        is_split_plan(m, chunks, filename, data.len() as u64, chunk_size, dir),
        0 <= k <= chunks.len(),
    ensures
        k * chunk_size <= data.len() || k == chunks.len(),
        total_bytes(chunks.subrange(0, k)) == (if k == chunks.len() {
            data.len() as int
        } else {
            k * chunk_size
        }),
        joined(data, chunk_size as nat, chunks.subrange(0, k)) == data.subrange(
            0,
            total_bytes(chunks.subrange(0, k)) as int,
        ),
    decreases k,
{
    if k == 0 {
        assert(0 * chunk_size == 0) by (nonlinear_arith);
        assert(chunks.subrange(0, 0) =~= Seq::<ChunkInfoView>::empty());
        assert(data.subrange(0, 0) =~= Seq::<u8>::empty());
        if chunks.len() == 0 {
            assert(data.len() == 0) by {
                if data.len() > 0 {
                    vstd::arithmetic::div_mod::lemma_fundamental_div_mod(
                        data.len() as int,
                        chunk_size as int,
                    );
                    assert(chunk_size * 0 == 0) by (nonlinear_arith);
                }
            }
        }
    } else {
        lemma_split_prefix(data, m, chunks, filename, chunk_size, dir, k - 1);
        lemma_chunk_bounds(data.len(), chunk_size as nat, (k - 1) as nat);
        let pre = chunks.subrange(0, k - 1);
        let cur = chunks.subrange(0, k);
        assert(cur.drop_last() == pre);
        assert(cur.last() == chunks[k - 1]);
        assert((k - 1) * chunk_size + chunk_size == k * chunk_size) by (nonlinear_arith);
        let start = (k - 1) * chunk_size;
        let len = chunk_len(data.len(), chunk_size as nat, (k - 1) as nat);
        assert(chunk_data(data, chunk_size as nat, chunks[k - 1]) == data.subrange(
            start,
            start + len,
        ));
        assert(data.subrange(0, start) + data.subrange(start, start + len) =~= data.subrange(
            0,
            start + len,
        ));
    }
}

/// Round trip of a split: the chunks that a split plans are accepted for
/// reassembly under the split's own description, and their bytes, put
/// together in the order that reassembly prescribes, are the file's bytes.
pub proof fn law_split_then_reassemble(
    chunker: FileChunker,
    data: Seq<u8>,
    m: ChunkMetadata,
    chunks: Seq<ChunkInfoView>,
    filename: Seq<char>,
    dir: Seq<char>,
)
    requires
        data.len() <= u64::MAX,
        splits(chunker.config(), data.len() as u64),
        is_split_plan(
            m,
            chunks,
            filename,
            data.len() as u64,
            chunker.config().tier_size(data.len() as u64),
            dir,
        ),
    ensures
        reassembles(chunks, m),
        joined(
            data,
            chunker.config().tier_size(data.len() as u64) as nat,
            sort_by_index(chunks),
        ) == data,
{
    let chunk_size = chunker.config().tier_size(data.len() as u64);
    lemma_split_prefix(data, m, chunks, filename, chunk_size, dir, chunks.len() as int);
    assert(chunks.subrange(0, chunks.len() as int) == chunks);
    assert(ascending(chunks));
    lemma_sort_ascending(chunks);
    assert(data.subrange(0, data.len() as int) == data);
}

/// The splitter.
pub struct FileChunker {
    config: ChunkingConfig,
}

impl FileChunker {
    /// The configuration that this splitter works by.
    pub closed spec fn config(&self) -> ChunkingConfig {
        self.config
    }

    /// A splitter with the default configuration.
    pub fn new() -> (r: Self)
        ensures
            r.config() == default_config(),
    {
        FileChunker { config: ChunkingConfig::default() }
    }

    /// A splitter with the configuration given.
    pub fn with_config(config: ChunkingConfig) -> (r: Self)
        ensures
            r.config() == config,
    {
        FileChunker { config }
    }

    /// Whether a file of `file_size` bytes is split: it is from the threshold on.
    pub fn should_chunk_file(&self, file_size: u64) -> (r: bool)
        ensures
            r == (file_size >= self.config().min_chunk_threshold),
    {
        file_size >= self.config.min_chunk_threshold
    }

    /// The chunk size for a file of `file_size` bytes.
    pub fn get_chunk_size(&self, file_size: u64) -> (r: u64)
        ensures
            r == self.config().tier_size(file_size),
    {
        if file_size >= self.config.large_file_threshold {
            self.config.large_chunk_size
        } else if file_size >= self.config.medium_file_threshold {
            self.config.medium_chunk_size
        } else {
            self.config.small_chunk_size
        }
    }

    /// The split of a file named `filename`, of `file_size` bytes, into chunks
    /// kept under `output_dir`: what is known of the whole, and the chunks in
    /// order. A file below the threshold is refused, and so is a split whose
    /// chunk size is zero or whose chunks are too many to count.
    pub fn chunk_file(&self, filename: &str, file_size: u64, output_dir: &str) -> (r: Result<
        (ChunkMetadata, Vec<ChunkInfo>),
    >)
        ensures
            match r {
                Ok((m, chunks)) => {
                    &&& splits(self.config(), file_size)
                    &&& is_split_plan(
                        m,
                        chunk_views(chunks@),
                        filename@,
                        file_size,
                        self.config().tier_size(file_size),
                        output_dir@,
                    )
                },
                Err(e) => !splits(self.config(), file_size) && e is Other,
            },
    {
        if !self.should_chunk_file(file_size) {
            return Err(
                Error::Other(crate::text::wrap("File ", filename, " is below chunking threshold")),
            );
        }
        let chunk_size = self.get_chunk_size(file_size);
        if chunk_size == 0 {
            return Err(Error::Other(String::from_str("Chunk size must not be zero")));
        }
        let whole: u64 = file_size / chunk_size;
        let rest: u64 = file_size % chunk_size;
        proof {
            vstd::arithmetic::div_mod::lemma_fundamental_div_mod(
                file_size as int,
                chunk_size as int,
            );
            if rest != 0 {
                assert(chunk_size >= 2);
                assert(whole < u64::MAX) by (nonlinear_arith)
                    requires
                        file_size == chunk_size * whole + rest,
                        chunk_size >= 2,
                        rest >= 0,
                        file_size <= u64::MAX,
                        whole >= 0,
                ;
            }
        }
        let count: u64 = if rest == 0 {
            whole
        } else {
            whole + 1
        };
        if count > usize::MAX as u64 {
            return Err(Error::Other(String::from_str("Too many chunks")));
        }
        let total_chunks: usize = count as usize;
        let mut chunks: Vec<ChunkInfo> = Vec::new();
        let mut i: usize = 0;
        while i < total_chunks
            invariant
                i <= total_chunks,
                chunk_size > 0,
                total_chunks as nat == chunk_count(file_size as nat, chunk_size as nat),
                chunks.len() == i,
                forall|j: int|
                    0 <= j < i ==> #[trigger] chunk_views(chunks@)[j] == (ChunkInfoView {
                        chunk_path: chunk_path(output_dir@, filename@, j as nat),
                        chunk_index: j as usize,
                        chunk_size: chunk_len(file_size as nat, chunk_size as nat, j as nat) as u64,
                    }),
            decreases total_chunks - i,
        {
            proof {
                lemma_chunk_bounds(file_size as nat, chunk_size as nat, i as nat);
            }
            let offset: u64 = (i as u64) * chunk_size;
            let left: u64 = file_size - offset;
            let size: u64 = if left < chunk_size {
                left
            } else {
                chunk_size
            };
            assert(size == chunk_len(file_size as nat, chunk_size as nat, i as nat)) by {
                assert((i + 1) * chunk_size == i * chunk_size + chunk_size) by (nonlinear_arith);
            }
            let path = crate::text::wrap(output_dir, "/", chunk_file_name(filename, i).as_str());
            let ghost before = chunk_views(chunks@);
            chunks.push(ChunkInfo { chunk_path: path, chunk_index: i, chunk_size: size });
            assert(chunk_views(chunks@) =~= before.push(chunks@.last()@));
            i += 1;
        }
        let metadata = ChunkMetadata {
            original_filename: String::from_str(filename),
            total_chunks,
            chunk_size,
            total_size: file_size,
            sha256: None,
        };
        Ok((metadata, chunks))
    }

    /// Checks that `chunks` make up the file that `metadata` describes, and
    /// gives them in the order in which their bytes follow one another.
    pub fn reassemble_chunks(&self, chunks: &Vec<ChunkInfo>, metadata: &ChunkMetadata) -> (r:
        Result<Vec<ChunkInfo>>)
        ensures
            match r {
                Ok(order) => reassembles(chunk_views(chunks@), *metadata) && chunk_views(order@)
                    == sort_by_index(chunk_views(chunks@)),
                Err(e) => !reassembles(chunk_views(chunks@), *metadata) && e is Corrupt,
            },
            (exists|i: int| 0 <= i < chunks.len() && #[trigger] lacks_index(chunk_views(chunks@), i))
                ==> r is Err,
    {
        let ghost views = chunk_views(chunks@);
        let sorted = sort_chunks(chunks);
        proof {
            lemma_sort_by_index(views);
            if exists|i: int| 0 <= i < chunks.len() && #[trigger] lacks_index(views, i) {
                let i = choose|i: int| 0 <= i < chunks.len() && #[trigger] lacks_index(views, i);
                let x = sort_by_index(views)[i];
                if x.chunk_index == i {
                    assert(sort_by_index(views).to_multiset().count(x) > 0);
                    assert(views.to_multiset().count(x) > 0);
                    let j = choose|j: int| 0 <= j < views.len() && views[j] == x;
                    assert(views[j].chunk_index == i);
                }
            }
        }
        if sorted.len() != metadata.total_chunks {
            let mut m = String::from_str("Missing chunks: expected ");
            m.append(to_decimal(metadata.total_chunks as u64).as_str());
            m.append(", found ");
            m.append(to_decimal(sorted.len() as u64).as_str());
            return Err(Error::Corrupt(m));
        }
        let mut total: u64 = 0;
        let mut i: usize = 0;
        while i < sorted.len()
            invariant
                i <= sorted.len() == chunks.len(),
                views == chunk_views(chunks@),
                chunk_views(sorted@) == sort_by_index(views),
                sort_by_index(views).to_multiset() == views.to_multiset(),
                forall|j: int| 0 <= j < i ==> (#[trigger] sort_by_index(views)[j]).chunk_index == j,
                total as nat == total_bytes(views.subrange(0, i as int)),
            decreases sorted.len() - i,
        {
            assert(chunk_views(sorted@)[i as int] == sorted@[i as int]@);
            if sorted[i].chunk_index != i {
                let mut m = String::from_str("Chunk sequence error: expected index ");
                m.append(to_decimal(i as u64).as_str());
                m.append(", found ");
                m.append(to_decimal(sorted[i].chunk_index as u64).as_str());
                return Err(Error::Corrupt(m));
            }
            let size = chunks[i].chunk_size;
            assert(views.subrange(0, i + 1).drop_last() == views.subrange(0, i as int));
            assert(views.subrange(0, i + 1).last() == chunks@[i as int]@);
            if size > u64::MAX - total {
                proof {
                    lemma_total_bytes_prefix(views, i + 1);
                }
                return Err(Error::Corrupt(String::from_str("Size mismatch after reassembly")));
            }
            total = total + size;
            i += 1;
        }
        assert(views.subrange(0, i as int) == views);
        if total != metadata.total_size {
            let mut m = String::from_str("Size mismatch after reassembly: expected ");
            m.append(to_decimal(metadata.total_size).as_str());
            m.append(", got ");
            m.append(to_decimal(total).as_str());
            return Err(Error::Corrupt(m));
        }
        Ok(sorted)
    }

    /// Reads `filename` as the name of a chunk: the name of the file it
    /// belongs to, and the chunk with its index, kept at `full_path` with
    /// `file_size` bytes. Gives nothing for a name that is not a chunk's.
    pub fn parse_chunk_filename(&self, filename: &str, full_path: &str, file_size: u64) -> (r:
        Option<(String, ChunkInfo)>)
        ensures
            match r {
                Some((original, info)) => {
                    &&& is_chunk_name(filename@, original@, info.chunk_index as nat)
                    &&& info.chunk_path@ == full_path@
                    &&& info.chunk_size == file_size
                },
                None => forall|original: Seq<char>, index: nat|
                    !is_chunk_name(filename@, original, index),
            },
    {
        let name = to_chars(filename);
        let mark = to_chars(".chunk.");
        match rfind(&name, &mark) {
            None => {
                assert forall|original: Seq<char>, index: nat|
                    !is_chunk_name(filename@, original, index) by {
                    if is_chunk_name(filename@, original, index) {
                        let p = choose|p: int| #[trigger] last_match(filename@, marker(), p);
                        assert(crate::text::match_at(filename@, marker(), p));
                    }
                }
                None
            },
            Some(p) => {
                assert(crate::text::match_at(name@, mark@, p as int));
                assert(p + mark@.len() <= name@.len());
                assert(p + mark.len() <= name.len());
                let suffix = slice(&name, p + mark.len(), name.len());
                let parsed = parse_number(&suffix, usize::MAX as u64);
                match parsed {
                    None => {
                        assert forall|original: Seq<char>, index: nat|
                            !is_chunk_name(filename@, original, index) by {
                            if is_chunk_name(filename@, original, index) {
                                let q = choose|q: int|
                                    {
                                        &&& #[trigger] last_match(filename@, marker(), q)
                                        &&& original == filename@.subrange(0, q)
                                        &&& parse_unsigned(
                                            filename@.subrange(
                                                q + marker().len(),
                                                filename@.len() as int,
                                            ),
                                            usize::MAX as nat,
                                        ) == Some(index)
                                    };
                                assert(q == p);
                            }
                        }
                        None
                    },
                    Some(index) => {
                        let original = from_chars(&slice(&name, 0, p));
                        let info = ChunkInfo {
                            chunk_path: String::from_str(full_path),
                            chunk_index: index as usize,
                            chunk_size: file_size,
                        };
                        assert(last_match(filename@, marker(), p as int));
                        Some((original, info))
                    },
                }
            },
        }
    }

    /// The chunks of `name`'s file among `files`, in the order of `files`.
    fn collect_members(&self, files: &Vec<FileEntry>, name: &String) -> (r: Vec<ChunkInfo>)
        ensures
            chunk_views(r@) == members(files@, name@),
    {
        let mut list: Vec<ChunkInfo> = Vec::new();
        let mut k: usize = 0;
        assert(chunk_views(list@) =~= members(files@.subrange(0, 0), name@));
        while k < files.len()
            invariant
                k <= files.len(),
                chunk_views(list@) == members(files@.subrange(0, k as int), name@),
            decreases files.len() - k,
        {
            let f = &files[k];
            let ghost pre = files@.subrange(0, k as int);
            let ghost cur = files@.subrange(0, k + 1);
            assert(cur.drop_last() == pre);
            assert(cur.last() == *f);
            match self.parse_chunk_filename(f.name.as_str(), f.path.as_str(), f.size) {
                Some((original, info)) => {
                    if original == *name {
                        proof {
                            assert(belongs_to(f.name@, name@));
                            lemma_chunk_name_unique(
                                f.name@,
                                name@,
                                info.chunk_index as nat,
                                name@,
                                index_in(f.name@, name@),
                            );
                        }
                        let ghost before = chunk_views(list@);
                        list.push(info);
                        assert(chunk_views(list@) =~= before.push(info@));
                    } else {
                        proof {
                            if belongs_to(f.name@, name@) {
                                lemma_chunk_name_unique(
                                    f.name@,
                                    name@,
                                    index_in(f.name@, name@),
                                    original@,
                                    info.chunk_index as nat,
                                );
                            }
                        }
                    }
                },
                None => {},
            }
            k += 1;
        }
        assert(files@.subrange(0, k as int) == files@);
        list
    }

    /// The chunk files among `files`, grouped by the file they belong to. A
    /// group may have gaps in its indices: reassembly finds them.
    pub fn detect_chunks(&self, files: &Vec<FileEntry>) -> (r: Vec<ChunkGroup>)
        ensures
            forall|g: int| 0 <= g < r.len() ==> is_group_of(#[trigger] r@[g], files@),
            forall|a: int, b: int|
                0 <= a < b < r.len() ==> r@[a].original_filename@ != r@[b].original_filename@,
            forall|j: int, original: Seq<char>|
                0 <= j < files.len() && #[trigger] belongs_to(files@[j].name@, original)
                    ==> exists|g: int|
                    0 <= g < r.len() && (#[trigger] r@[g]).original_filename@ == original,
    {
        let mut names: Vec<String> = Vec::new();
        let mut k: usize = 0;
        while k < files.len()
            invariant
                k <= files.len(),
                forall|a: int, b: int| 0 <= a < b < names.len() ==> names@[a]@ != names@[b]@,
                forall|g: int| 0 <= g < names.len() ==> seen(files@, k as int, #[trigger] names@[g]@),
                forall|j: int, original: Seq<char>|
                    0 <= j < k && #[trigger] belongs_to(files@[j].name@, original) ==> exists|
                        g: int,
                    |
                        0 <= g < names.len() && (#[trigger] names@[g])@ == original,
            decreases files.len() - k,
        {
            let f = &files[k];
            match self.parse_chunk_filename(f.name.as_str(), f.path.as_str(), f.size) {
                Some((original, info)) => {
                    let mut found = false;
                    let mut g: usize = 0;
                    while g < names.len()
                        invariant
                            g <= names.len(),
                            found ==> exists|h: int|
                                0 <= h < names.len() && (#[trigger] names@[h])@ == original@,
                            !found ==> forall|h: int| 0 <= h < g ==> names@[h]@ != original@,
                        decreases names.len() - g,
                    {
                        if names[g] == original {
                            found = true;
                        }
                        g += 1;
                    }
                    let ghost old_names = names@;
                    if !found {
                        names.push(original);
                    }
                    assert(belongs_to(files@[k as int].name@, original@));
                    assert forall|j: int, o: Seq<char>|
                        0 <= j < k + 1 && #[trigger] belongs_to(
                            files@[j].name@,
                            o,
                        ) implies exists|g: int|
                        0 <= g < names.len() && (#[trigger] names@[g])@ == o by {
                        if j == k {
                            lemma_chunk_name_unique(
                                f.name@,
                                o,
                                index_in(f.name@, o),
                                original@,
                                info.chunk_index as nat,
                            );
                            if found {
                                let h = choose|h: int|
                                    0 <= h < old_names.len() && (#[trigger] old_names[h])@
                                        == original@;
                                assert(names@[h]@ == o);
                            } else {
                                assert(names@[names.len() - 1]@ == o);
                            }
                        } else {
                            let h = choose|h: int|
                                0 <= h < old_names.len() && (#[trigger] old_names[h])@ == o;
                            assert(names@[h]@ == o);
                        }
                    }
                    assert forall|g: int| 0 <= g < names.len() implies seen(
                        files@,
                        k + 1,
                        #[trigger] names@[g]@,
                    ) by {
                        if g < old_names.len() {
                            assert(seen(files@, k as int, old_names[g]@));
                            let j = choose|j: int|
                                0 <= j < k && belongs_to(#[trigger] files@[j].name@, old_names[g]@);
                            assert(belongs_to(files@[j].name@, names@[g]@));
                        } else {
                            assert(belongs_to(files@[k as int].name@, names@[g]@));
                        }
                    }
                },
                None => {
                    assert forall|o: Seq<char>| !belongs_to(files@[k as int].name@, o) by {}
                    assert forall|g: int| 0 <= g < names.len() implies seen(
                        files@,
                        k + 1,
                        #[trigger] names@[g]@,
                    ) by {
                        assert(seen(files@, k as int, names@[g]@));
                        let j = choose|j: int|
                            0 <= j < k && belongs_to(#[trigger] files@[j].name@, names@[g]@);
                        assert(belongs_to(files@[j].name@, names@[g]@));
                    }
                },
            }
            k += 1;
        }
        let mut groups: Vec<ChunkGroup> = Vec::new();
        let mut g: usize = 0;
        while g < names.len()
            invariant
                g <= names.len(),
                groups.len() == g,
                forall|h: int|
                    0 <= h < names.len() ==> seen(files@, files.len() as int, #[trigger] names@[h]@),
                forall|h: int|
                    0 <= h < g ==> is_group_of(#[trigger] groups@[h], files@)
                        && groups@[h].original_filename@ == names@[h]@,
            decreases names.len() - g,
        {
            let name = &names[g];
            let list = self.collect_members(files, name);
            proof {
                assert(seen(files@, files.len() as int, names@[g as int]@));
                let j = choose|j: int|
                    0 <= j < files.len() && belongs_to(#[trigger] files@[j].name@, names@[g as int]@);
                lemma_members_nonempty(files@, name@, j);
                lemma_sort_by_index(chunk_views(list@));
            }
            let ghost all = chunk_views(list@);
            let mut total: u64 = 0;
            let mut i: usize = 0;
            while i < list.len()
                invariant
                    i <= list.len(),
                    all == chunk_views(list@),
                    total as nat == (if total_bytes(all.subrange(0, i as int)) <= u64::MAX {
                        total_bytes(all.subrange(0, i as int))
                    } else {
                        u64::MAX as nat
                    }),
                decreases list.len() - i,
            {
                assert(all.subrange(0, i + 1).drop_last() == all.subrange(0, i as int));
                assert(all.subrange(0, i + 1).last() == list@[i as int]@);
                let size = list[i].chunk_size;
                total = if size > u64::MAX - total {
                    u64::MAX
                } else {
                    total + size
                };
                i += 1;
            }
            assert(all.subrange(0, i as int) == all);
            let sorted = sort_chunks(&list);
            assert(chunk_views(sorted@)[0] == sorted@[0]@);
            let metadata = ChunkMetadata {
                original_filename: name.clone(),
                total_chunks: sorted.len(),
                chunk_size: sorted[0].chunk_size,
                total_size: total,
                sha256: None,
            };
            groups.push(ChunkGroup { original_filename: name.clone(), metadata, chunks: sorted });
            g += 1;
        }
        assert forall|j: int, original: Seq<char>|
            0 <= j < files.len() && #[trigger] belongs_to(
                files@[j].name@,
                original,
            ) implies exists|g: int|
            0 <= g < groups.len() && (#[trigger] groups@[g]).original_filename@ == original by {
            let h = choose|h: int| 0 <= h < names.len() && (#[trigger] names@[h])@ == original;
            assert(groups@[h].original_filename@ == original);
        }
        groups
    }
}

} // verus!

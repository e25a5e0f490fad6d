//! `ChunkIndex`
//! An indexed checksum collection for chunks of data: a map from chunk id to
//! payload ("checksum&offset"), kept sorted by chunk id.
use vstd::prelude::*;
use vstd::seq_lib::lemma_sorted_unique;
use crypto::digest::Digest;
use crypto::sha2::Sha256;
use crate::text::{texts, join_texts, lines_of, lines, text_le, lemma_text_le_total, sort_texts, join_with};
use crate::payload::{two_fields, checksum_of, offset_text, offset_of, parse_usize, split_payload, parse_offset, has_two_fields};
use crate::seqs::{lemma_filter_filter, lemma_filter_congruent, lemma_filter_map_contains, lemma_filter_all};
use crate::lex::{seq_lt, str_lt, lemma_lt_irreflexive, lemma_lt_transitive, lemma_lt_total, lemma_lt_asymmetric};

verus! {

pub struct Chunk {
    pub chunk_id: String,
    pub checksum: String,
    pub offset: usize,
}

impl Chunk {
    pub fn new(chunk_id: String, checksum: String, offset: usize) -> (r: Chunk)
        ensures
            r.chunk_id@ == chunk_id@,
            r.checksum@ == checksum@,
            r.offset == offset,
    {
        Chunk { chunk_id: chunk_id, checksum: checksum, offset: offset }
    }
}

/// An entry of an index: chunk id and payload, taken by their characters.
pub type Entry = (Seq<char>, Seq<char>);

/// The keys of a sequence of entries come in strictly increasing order.
pub open spec fn sorted_keys(es: Seq<Entry>) -> bool {
    forall|i: int, j: int| 0 <= i < j < es.len() ==> seq_lt(#[trigger] es[i].0, #[trigger] es[j].0)
}

/// Some entry has this key.
pub open spec fn has_key(es: Seq<Entry>, k: Seq<char>) -> bool {
    exists|i: int| 0 <= i < es.len() && (#[trigger] es[i]).0 == k
}

/// The payload stored under a key that is present.
pub open spec fn value_of(es: Seq<Entry>, k: Seq<char>) -> Seq<char> {
    es[key_index(es, k)].1
}

/// The position of a key that is present.
pub open spec fn key_index(es: Seq<Entry>, k: Seq<char>) -> int {
    choose|i: int| 0 <= i < es.len() && (#[trigger] es[i]).0 == k
}

/// How many entries have a key before `k`: where `k` goes.
pub open spec fn count_less(es: Seq<Entry>, k: Seq<char>) -> nat
    decreases es.len(),
{
    if es.len() == 0 {
        0
    } else {
        count_less(es.drop_last(), k) + if seq_lt(es.last().0, k) { 1nat } else { 0nat }
    }
}

/// The entries whose key differs from `k`.
pub open spec fn without_key(es: Seq<Entry>, k: Seq<char>) -> Seq<Entry> {
    es.filter(key_differs(k))
}

/// Holds of the entries whose key is not `k`.
pub open spec fn key_differs(k: Seq<char>) -> spec_fn(Entry) -> bool {
    |e: Entry| e.0 != k
}

pub struct ChunkIndex {
    pub file: String,
    /// Chunk id and payload, sorted by chunk id, each id once.
    pub chunks: Vec<(String, String)>,
}

impl ChunkIndex {
    /// The entries of the index in order of their chunk ids.
    pub open spec fn entries(&self) -> Seq<Entry> {
        self.chunks@.map_values(|e: (String, String)| (e.0@, e.1@))
    }

    /// The index is sorted by chunk id with each id once.
    pub open spec fn wf(&self) -> bool {
        sorted_keys(self.entries())
    }

    pub fn new(file: &String) -> (r: ChunkIndex)
        ensures
            r.wf(),
            r.file@ == file@,
            r.entries() == Seq::<Entry>::empty(),
    {
        let r = ChunkIndex { file: file.clone(), chunks: Vec::new() };
        assert(r.entries() =~= Seq::<Entry>::empty());
        r
    }

    /// Where a key is, or where it would go: the number of entries whose key
    /// comes before it.
    fn position(&self, chunk_id: &String) -> (r: usize)
        requires
            self.wf(),
        ensures
            r == count_less(self.entries(), chunk_id@),
            r <= self.entries().len(),
            forall|i: int| 0 <= i < r ==> seq_lt(#[trigger] self.entries()[i].0, chunk_id@),
            forall|i: int| r <= i < self.entries().len() ==> !seq_lt(#[trigger] self.entries()[i].0, chunk_id@),
    {
        let ghost es = self.entries();
        let mut i: usize = 0;
        while i < self.chunks.len() && str_lt(self.chunks[i].0.as_str(), chunk_id.as_str())
            invariant
                es == self.entries(),
                sorted_keys(es),
                i <= es.len(),
                es.len() == self.chunks@.len(),
                forall|j: int| 0 <= j < i ==> seq_lt(#[trigger] es[j].0, chunk_id@),
            decreases self.chunks.len() - i,
        {
            i = i + 1;
        }
        proof {
            if i < es.len() {
                assert(!seq_lt(es[i as int].0, chunk_id@));
                assert forall|j: int| i <= j < es.len() implies !seq_lt(#[trigger] es[j].0, chunk_id@) by {
                    if j > i && seq_lt(es[j].0, chunk_id@) {
                        lemma_lt_transitive(es[i as int].0, es[j].0, chunk_id@);
                    }
                }
            }
            lemma_count_less_split(es, chunk_id@, i as int);
        }
        i
    }

    /// Adds a chunk unless its id is already present; returns whether it was added.
    pub fn insert(&mut self, chunk_id: String, payload: String) -> (r: bool)
        requires
            old(self).wf(),
        ensures
            final(self).wf(),
            final(self).file == old(self).file,
            r == !has_key(old(self).entries(), chunk_id@),
            r ==> final(self).entries() == old(self).entries().insert(
                count_less(old(self).entries(), chunk_id@) as int,
                (chunk_id@, payload@),
            ),
            !r ==> final(self).entries() == old(self).entries(),
    {
        let ghost es = self.entries();
        let pos = self.position(&chunk_id);
        let found = pos < self.chunks.len() && self.chunks[pos].0 == chunk_id;
        proof {
            if found {
                assert(es[pos as int].0 == chunk_id@);
            } else {
                lemma_absent_key(es, chunk_id@, pos as int);
            }
        }
        if found {
            false
        } else {
            self.chunks.insert(pos, (chunk_id, payload));
            proof {
                let ns = self.entries();
                assert(ns =~= es.insert(pos as int, (chunk_id@, payload@)));
                assert forall|i: int, j: int| 0 <= i < j < ns.len() implies seq_lt(
                    #[trigger] ns[i].0,
                    #[trigger] ns[j].0,
                ) by {
                    if j < pos {
                    } else if j == pos {
                    } else if i == pos {
                        if j - 1 > pos {
                            lemma_lt_total(es[pos as int].0, chunk_id@);
                            lemma_lt_transitive(chunk_id@, es[pos as int].0, es[j - 1].0);
                        } else {
                            lemma_lt_total(es[pos as int].0, chunk_id@);
                        }
                    } else if i < pos {
                    } else {
                    }
                }
            }
            true
        }
    }

    /// The payload of a chunk id, if present.
    pub fn search(&self, chunk_id: &String) -> (r: Option<&String>)
        requires
            self.wf(),
        ensures
            r is Some <==> has_key(self.entries(), chunk_id@),
            r matches Some(p) ==> p@ == value_of(self.entries(), chunk_id@),
    {
        let ghost es = self.entries();
        let pos = self.position(chunk_id);
        if pos < self.chunks.len() && self.chunks[pos].0 == *chunk_id {
            proof {
                assert(es[pos as int].0 == chunk_id@);
                lemma_value_of_unique(es, chunk_id@, pos as int);
            }
            Some(&self.chunks[pos].1)
        } else {
            proof {
                lemma_absent_key(es, chunk_id@, pos as int);
            }
            None
        }
    }

    /// Removes a chunk id, if present.
    pub fn remove(&mut self, chunk_id: &String)
        requires
            old(self).wf(),
        ensures
            final(self).wf(),
            final(self).file == old(self).file,
            final(self).entries() == without_key(old(self).entries(), chunk_id@),
    {
        let ghost es = self.entries();
        let pos = self.position(chunk_id);
        if pos < self.chunks.len() && self.chunks[pos].0 == *chunk_id {
            self.chunks.remove(pos);
            proof {
                let ns = self.entries();
                assert(ns =~= es.remove(pos as int));
                lemma_without_key_at(es, chunk_id@, pos as int);
            }
        } else {
            proof {
                lemma_absent_key(es, chunk_id@, pos as int);
                lemma_without_absent_key(es, chunk_id@);
            }
        }
    }

    /// The number of chunks in the index.
    pub fn len(&self) -> (r: usize)
        ensures
            r == self.entries().len(),
    {
        self.chunks.len()
    }

    /// Whether every payload holds a checksum and an offset that parses,
    /// as those written by `process_response` do.
    pub fn payloads_parse(&self) -> (r: bool)
        ensures
            r == payloads_parse(self.entries()),
    {
        let n = self.chunks.len();
        let mut i: usize = 0;
        while i < n
            invariant
                n == self.chunks@.len(),
                i <= n,
                forall|k: int| 0 <= k < i ==> payload_parses(#[trigger] self.entries()[k]),
            decreases n - i,
        {
            let p = &self.chunks[i].1;
            assert(self.entries()[i as int].1 == p@);
            if !has_two_fields(p) {
                return false;
            }
            let (_, off) = split_payload(p);
            if parse_offset(off.as_str()).is_none() {
                return false;
            }
            i = i + 1;
        }
        true
    }

    /// The chunk id and payload at a position in id order.
    pub fn entry(&self, i: usize) -> (r: (&String, &String))
        requires
            i < self.entries().len(),
        ensures
            r.0@ == self.entries()[i as int].0,
            r.1@ == self.entries()[i as int].1,
    {
        (&self.chunks[i].0, &self.chunks[i].1)
    }
}

/// The payload of the entry holds a checksum and an offset that parses.
pub open spec fn payload_parses(e: Entry) -> bool {
    two_fields(e.1) && parse_usize(offset_text(e.1)) is Some
}

/// Every payload holds a checksum and an offset that parses.
pub open spec fn payloads_parse(es: Seq<Entry>) -> bool {
    forall|i: int| 0 <= i < es.len() ==> payload_parses(#[trigger] es[i])
}

/// Two indexes whose payloads all parse can be compared, by id or by
/// checksum.
pub proof fn lemma_parsed_payloads_diff_ready(old1: Seq<Entry>, old2: Seq<Entry>, by_checksum: bool)
    requires
        payloads_parse(old1),
        payloads_parse(old2),
    ensures
        diff_ready(old1, old2, by_checksum),
        diff_ok(old1, old2),
{
    let ids = removal_ids(old1, old2, by_checksum);
    let new2 = remove_all(old2, ids);
    lemma_remove_all_subseq(old2, ids);
    assert forall|j: int| 0 <= j < new2.len() implies parse_usize(offset_text((#[trigger] new2[j]).1)) is Some by {
        assert(new2.contains(new2[j]));
        assert(old2.contains(new2[j]));
        let k = choose|k: int| 0 <= k < old2.len() && old2[k] == new2[j];
        assert(payload_parses(old2[k]));
    }
    assert forall|i: int| 0 <= i < old1.len() implies two_fields((#[trigger] old1[i]).1) by {
        assert(payload_parses(old1[i]));
    }
    assert forall|j: int| 0 <= j < old2.len() implies two_fields((#[trigger] old2[j]).1) && parse_usize(offset_text(old2[j].1)) is Some by {
        assert(payload_parses(old2[j]));
    }
    assert forall|i: int| 0 <= i < old1.len() implies parse_usize(offset_text((#[trigger] old1[i]).1)) is Some by {
        assert(payload_parses(old1[i]));
    }
}

/// Holds of the entries whose chunk id `other` lacks.
pub open spec fn absent_from(other: Seq<Entry>) -> spec_fn(Entry) -> bool {
    |e: Entry| !has_key(other, e.0)
}

/// The entries of `es` whose chunk id is absent from `other`.
pub open spec fn only_in(es: Seq<Entry>, other: Seq<Entry>) -> Seq<Entry> {
    es.filter(absent_from(other))
}

/// Holds of the entries whose chunk id is none of `ids`.
pub open spec fn id_not_in(ids: Seq<Seq<char>>) -> spec_fn(Entry) -> bool {
    |e: Entry| !ids.contains(e.0)
}

/// The entries of `es` whose chunk id is none of `ids`.
pub open spec fn without_ids(es: Seq<Entry>, ids: Seq<Seq<char>>) -> Seq<Entry> {
    es.filter(id_not_in(ids))
}

/// The entries left after removing, one after another, each of the ids.
pub open spec fn remove_all(es: Seq<Entry>, ids: Seq<Seq<char>>) -> Seq<Entry>
    decreases ids.len(),
{
    if ids.len() == 0 {
        es
    } else {
        without_key(remove_all(es, ids.drop_last()), ids.last())
    }
}

/// For each chunk of `old1` that `old2` has too, in order: its id, or its
/// checksum when `by_checksum` holds. These are the keys that a diff
/// removes from both indexes.
pub open spec fn removal_ids(old1: Seq<Entry>, old2: Seq<Entry>, by_checksum: bool) -> Seq<
    Seq<char>,
> {
    old1.filter_map(removal_key(old2, by_checksum))
}

/// The key that a diff removes for an entry of the first index: its id, or
/// its checksum when `by_checksum` holds; none when `old2` lacks the id.
pub open spec fn removal_key(old2: Seq<Entry>, by_checksum: bool) -> spec_fn(Entry) -> Option<
    Seq<char>,
> {
    |e: Entry|
        if has_key(old2, e.0) {
            Some(if by_checksum { checksum_of(e.1) } else { e.0 })
        } else {
            None
        }
}

/// The offsets, in the first index, of the chunks that the second lacks.
pub open spec fn deleted_offsets(old1: Seq<Entry>, old2: Seq<Entry>) -> Seq<usize> {
    old1.filter_map(|e: Entry| if !has_key(old2, e.0) { Some(offset_of(e.1)) } else { None })
}

/// The offsets, in the second index, of the chunks whose checksum changed.
pub open spec fn modified_offsets(old1: Seq<Entry>, old2: Seq<Entry>) -> Seq<usize> {
    old1.filter_map(
        |e: Entry|
            if has_key(old2, e.0) && checksum_of(e.1) != checksum_of(value_of(old2, e.0)) {
                Some(offset_of(value_of(old2, e.0)))
            } else {
                None
            },
    )
}

/// The offsets of a sequence of entries.
pub open spec fn offsets(es: Seq<Entry>) -> Seq<usize> {
    es.map_values(|e: Entry| offset_of(e.1))
}

/// Every payload splits into two fields, and the offsets that a diff reads
/// of deleted and modified chunks are decimal `usize`s.
pub open spec fn payloads_ok(old1: Seq<Entry>, old2: Seq<Entry>) -> bool {
    &&& forall|i: int|
        0 <= i < old1.len() ==> {
            &&& two_fields((#[trigger] old1[i]).1)
            &&& !has_key(old2, old1[i].0) ==> parse_usize(offset_text(old1[i].1)) is Some
        }
    &&& forall|j: int|
        0 <= j < old2.len() ==> {
            &&& two_fields((#[trigger] old2[j]).1)
            &&& (has_key(old1, old2[j].0) && checksum_of(value_of(old1, old2[j].0)) != checksum_of(
                old2[j].1,
            )) ==> parse_usize(offset_text(old2[j].1)) is Some
        }
}

/// The payloads that `calculate_diff` reads are well formed: each splits
/// into two fields, and each offset that it parses is a decimal `usize`.
pub open spec fn diff_ok(old1: Seq<Entry>, old2: Seq<Entry>) -> bool {
    &&& payloads_ok(old1, old2)
    &&& forall|j: int|
        0 <= j < old2.len() ==> !has_key(old1, (#[trigger] old2[j]).0) ==> parse_usize(
            offset_text(old2[j].1),
        ) is Some
}

/// What a diff that removes `removal_ids(old1, old2, by_checksum)` reads:
/// the payloads of `payloads_ok`, and the offsets of the chunks left in the
/// second index whose id is not left in the first.
pub open spec fn diff_ready(old1: Seq<Entry>, old2: Seq<Entry>, by_checksum: bool) -> bool {
    let ids = removal_ids(old1, old2, by_checksum);
    let new1 = remove_all(old1, ids);
    let new2 = remove_all(old2, ids);
    &&& payloads_ok(old1, old2)
    &&& forall|j: int|
        0 <= j < new2.len() ==> !has_key(new1, (#[trigger] new2[j]).0) ==> parse_usize(
            offset_text(new2[j].1),
        ) is Some
}

/// The diff of two indexes; the keys removed from both are the ids of
/// their common chunks, or, with `by_checksum`, the checksums of those
/// chunks in the first index.
pub(crate) fn diff_core(idx1: &mut ChunkIndex, idx2: &mut ChunkIndex, by_checksum: bool) -> (r: (
    Vec<usize>,
    Vec<usize>,
    Vec<usize>,
))
    requires
        old(idx1).wf(),
        old(idx2).wf(),
        diff_ready(old(idx1).entries(), old(idx2).entries(), by_checksum),
    ensures
        final(idx1).wf(),
        final(idx2).wf(),
        final(idx1).file == old(idx1).file,
        final(idx2).file == old(idx2).file,
        final(idx1).entries() == remove_all(
            old(idx1).entries(),
            removal_ids(old(idx1).entries(), old(idx2).entries(), by_checksum),
        ),
        final(idx2).entries() == remove_all(
            old(idx2).entries(),
            removal_ids(old(idx1).entries(), old(idx2).entries(), by_checksum),
        ),
        r.0@ == offsets(final(idx2).entries().filter(absent_from(final(idx1).entries()))),
        r.1@ == modified_offsets(old(idx1).entries(), old(idx2).entries()),
        r.2@ == deleted_offsets(old(idx1).entries(), old(idx2).entries()),
{
    let ghost old1 = idx1.entries();
    let ghost old2 = idx2.entries();
    let mut todelete: Vec<String> = Vec::new();
    let mut added: Vec<usize> = Vec::new();
    let mut modified: Vec<usize> = Vec::new();
    let mut deleted: Vec<usize> = Vec::new();
    let n1 = idx1.len();
    let mut i: usize = 0;
    while i < n1
        invariant
            i <= n1,
            n1 == old1.len(),
            idx1.entries() == old1,
            idx2.entries() == old2,
            idx1.wf(),
            idx2.wf(),
            payloads_ok(old1, old2),
            todelete@.map_values(|k: String| k@) =~= removal_ids(old1.take(i as int), old2, by_checksum),
            modified@ =~= modified_offsets(old1.take(i as int), old2),
            deleted@ =~= deleted_offsets(old1.take(i as int), old2),
        decreases n1 - i,
    {
        let (chunk1_id, chunk1_data) = idx1.entry(i);
        proof {
            assert(old1.take(i + 1).drop_last() =~= old1.take(i as int));
            assert(old1.take(i + 1).last() == old1[i as int]);
            assert(two_fields(old1[i as int].1));
        }
        let (checksum1, offset1) = split_payload(chunk1_data);
        match idx2.search(chunk1_id) {
            Some(chunk2_data) => {
                proof {
                    let j = key_index(old2, chunk1_id@);
                    assert(0 <= j < old2.len() && old2[j].0 == chunk1_id@);
                    assert(value_of(old2, chunk1_id@) == old2[j].1);
                    assert(two_fields(old2[j].1));
                    lemma_value_of_unique(old1, chunk1_id@, i as int);
                }
                let (checksum2, offset2) = split_payload(chunk2_data);
                if checksum1 != checksum2 {
                    proof {
                        let j = key_index(old2, chunk1_id@);
                        assert(has_key(old1, old2[j].0));
                    }
                    let offset = parse_offset(offset2.as_str()).unwrap();
                    modified.push(offset);
                }
                if by_checksum {
                    todelete.push(checksum1);
                } else {
                    todelete.push(chunk1_id.clone());
                }
            },
            None => {
                let offset = parse_offset(offset1.as_str()).unwrap();
                deleted.push(offset);
            },
        }
        proof {
            assert(todelete@.map_values(|k: String| k@) =~= removal_ids(old1.take(i + 1), old2, by_checksum));
        }
        i = i + 1;
    }
    proof {
        assert(old1.take(n1 as int) =~= old1);
    }
    let ghost ids = todelete@.map_values(|k: String| k@);
    proof {
        assert(ids.take(0) =~= Seq::<Seq<char>>::empty());
    }
    let mut t: usize = 0;
    while t < todelete.len()
        invariant
            t <= todelete.len(),
            ids == todelete@.map_values(|k: String| k@),
            idx1.wf(),
            idx2.wf(),
            idx1.file == old(idx1).file,
            idx2.file == old(idx2).file,
            idx1.entries() == remove_all(old1, ids.take(t as int)),
            idx2.entries() == remove_all(old2, ids.take(t as int)),
        decreases todelete.len() - t,
    {
        let k = &todelete[t];
        idx1.remove(k);
        idx2.remove(k);
        proof {
            assert(ids.take(t + 1).drop_last() =~= ids.take(t as int));
            assert(ids.take(t + 1).last() == k@);
        }
        t = t + 1;
    }
    proof {
        assert(ids.take(ids.len() as int) =~= ids);
    }
    let ghost new1 = idx1.entries();
    let ghost new2 = idx2.entries();
    let n2 = idx2.len();
    let mut j: usize = 0;
    proof {
        assert(new2.take(0) =~= Seq::<Entry>::empty());
        assert(new2.take(0).filter(absent_from(new1)) =~= Seq::<Entry>::empty()) by {
            reveal(Seq::filter);
        }
    }
    while j < n2
        invariant
            j <= n2,
            n2 == new2.len(),
            idx1.entries() == new1,
            idx2.entries() == new2,
            idx1.wf(),
            diff_ready(old1, old2, by_checksum),
            new1 == remove_all(old1, removal_ids(old1, old2, by_checksum)),
            new2 == remove_all(old2, removal_ids(old1, old2, by_checksum)),
            added@ =~= offsets(new2.take(j as int).filter(absent_from(new1))),
        decreases n2 - j,
    {
        let (chunk2_id, chunk2_data) = idx2.entry(j);
        proof {
            lemma_remove_all_subseq(old2, removal_ids(old1, old2, by_checksum));
            let e = new2[j as int];
            assert(new2.contains(e));
            assert(old2.contains(e));
            let v = choose|v: int| 0 <= v < old2.len() && old2[v] == e;
            assert(two_fields(old2[v].1));
            assert(new2.take(j + 1).drop_last() =~= new2.take(j as int));
            assert(new2.take(j + 1).last() == e);
            reveal(Seq::filter);
        }
        let (_checksum2, offset2) = split_payload(chunk2_data);
        match idx1.search(chunk2_id) {
            Some(_) => {},
            None => {
                let offset = parse_offset(offset2.as_str()).unwrap();
                added.push(offset);
            },
        }
        j = j + 1;
    }
    proof {
        assert(new2.take(n2 as int) =~= new2);
    }
    (added, modified, deleted)
}

/// The SHA-256 digest of the UTF-8 bytes of a text, as 64 lowercase hex
/// digits: what `rust-crypto`'s `Sha256` gives when fed the text with
/// `input_str` and read with `result_str`.
pub uninterp spec fn sha256_hex(input: Seq<char>) -> Seq<char>;

/// Hashes a text with `rust-crypto`'s `Sha256` (`Digest::input_str`, then
/// `Digest::result_str`). Trusted: its result is `sha256_hex` of the text;
/// nothing else is said of the digest.
#[verifier::external_body]
fn sha256_hex_of(input: &str) -> (r: String)
    ensures
        r@ == sha256_hex(input@),
{
    let mut sha = Sha256::new();
    sha.input_str(input);
    sha.result_str()
}

/// The text whose digest is the checksum of a chunk: its lines, sorted,
/// joined with '\n'. Sorting makes the checksum blind to the order of
/// the lines.
pub open spec fn checksum_text(input: Seq<char>) -> Seq<char> {
    join_texts(lines_of(input).sort_by(text_le()), seq!['\n'])
}

/// `calculate_checksum` gets a data chunk and creates a SHA-256 out of it:
/// the hex digest of its lines, sorted, joined with '\n'.
pub fn calculate_checksum(input: &String) -> (r: String)
    ensures
        r@ == sha256_hex(checksum_text(input@)),
{
    let ls = lines(input.as_str());
    let sorted = sort_texts(&ls);
    let text = join_with(&sorted, "\n");
    proof {
        lemma_text_le_total();
        texts(ls@).lemma_sort_by_ensures(text_le());
        lemma_sorted_unique(texts(sorted@), texts(ls@).sort_by(text_le()), text_le());
        reveal_strlit("\n");
        assert("\n"@ =~= seq!['\n']);
    }
    sha256_hex_of(text.as_str())
}

/// Offsets in ascending order.
pub open spec fn ascending(v: Seq<usize>) -> bool {
    forall|a: int, b: int| 0 <= a < b < v.len() ==> #[trigger] v[a] <= #[trigger] v[b]
}

/// The offsets in ascending order, each as often as given.
pub fn sort_offsets(v: Vec<usize>) -> (r: Vec<usize>)
    ensures
        ascending(r@),
        r@.to_multiset() == v@.to_multiset(),
{
    broadcast use vstd::seq_lib::to_multiset_insert;
    let mut r: Vec<usize> = Vec::new();
    let mut i: usize = 0;
    proof {
        assert(v@.take(0) =~= Seq::<usize>::empty());
        assert(r@ =~= v@.take(0));
    }
    while i < v.len()
        invariant
            i <= v.len(),
            ascending(r@),
            r@.to_multiset() == v@.take(i as int).to_multiset(),
        decreases v.len() - i,
    {
        let x = v[i];
        let mut pos: usize = 0;
        while pos < r.len() && r[pos] <= x
            invariant
                pos <= r.len(),
                forall|k: int| 0 <= k < pos ==> #[trigger] r@[k] <= x,
            decreases r.len() - pos,
        {
            pos = pos + 1;
        }
        let ghost before = r@;
        r.insert(pos, x);
        proof {
            assert(v@.take(i + 1) =~= v@.take(i as int).push(x));
            vstd::seq_lib::to_multiset_build(v@.take(i as int), x);
            vstd::seq_lib::to_multiset_insert(before, pos as int, x);
            assert forall|a: int, b: int| 0 <= a < b < r@.len() implies #[trigger] r@[a] <= #[trigger] r@[b] by {
                if a < pos && b == pos {
                } else if a == pos && b > pos {
                    assert(x < before[pos as int]);
                    assert(before[pos as int] <= before[b - 1]);
                } else if a < pos && b > pos {
                    assert(before[a] <= before[b - 1]);
                } else if a < pos && b < pos {
                    assert(before[a] <= before[b]);
                } else {
                    assert(before[a - 1] <= before[b - 1]);
                }
            }
        }
        i = i + 1;
    }
    proof {
        assert(v@.take(v@.len() as int) =~= v@);
    }
    r
}

/// `calculate_diff` compares two chunk indexes, the first seen as the old
/// version and the second as the new one, and returns the offsets of the
/// added, modified and deleted chunks, each list sorted by offset so that
/// a reader can seek through the files in order:
/// - a chunk in both with the same checksum is ignored;
/// - a chunk in both with different checksums is modified (offset in the second);
/// - a chunk only in the first is deleted (offset in the first);
/// - a chunk only in the second is added (offset in the second).
/// The chunks found in both indexes are removed from both.
pub fn calculate_diff(idx1: &mut ChunkIndex, idx2: &mut ChunkIndex, verbosity: i8) -> (r: (
    Vec<usize>,
    Vec<usize>,
    Vec<usize>,
))
    requires
        old(idx1).wf(),
        old(idx2).wf(),
        diff_ok(old(idx1).entries(), old(idx2).entries()),
    ensures
        final(idx1).wf(),
        final(idx2).wf(),
        final(idx1).file == old(idx1).file,
        final(idx2).file == old(idx2).file,
        final(idx1).entries() == only_in(old(idx1).entries(), old(idx2).entries()),
        final(idx2).entries() == only_in(old(idx2).entries(), old(idx1).entries()),
        ascending(r.0@),
        ascending(r.1@),
        ascending(r.2@),
        r.0@.to_multiset() == offsets(only_in(old(idx2).entries(), old(idx1).entries())).to_multiset(),
        r.1@.to_multiset() == modified_offsets(old(idx1).entries(), old(idx2).entries()).to_multiset(),
        r.2@.to_multiset() == deleted_offsets(old(idx1).entries(), old(idx2).entries()).to_multiset(),
{
    let ghost old1 = idx1.entries();
    let ghost old2 = idx2.entries();
    proof {
        lemma_common_removal(old1, old2);
        let new1 = only_in(old1, old2);
        let new2 = only_in(old2, old1);
        assert forall|j: int| 0 <= j < new2.len() && !has_key(new1, (#[trigger] new2[j]).0) implies parse_usize(
            offset_text(new2[j].1),
        ) is Some by {
            assert(old2.filter(absent_from(old1)).contains(new2[j]));
            old2.lemma_filter_contains_rev(absent_from(old1), new2[j]);
            let v = choose|v: int| 0 <= v < old2.len() && old2[v] == new2[j];
            assert(!has_key(old1, old2[v].0));
        }
    }
    let r = diff_core(idx1, idx2, false);
    proof {
        let new1 = only_in(old1, old2);
        let new2 = only_in(old2, old1);
        assert forall|j: int| 0 <= j < new2.len() implies absent_from(new1)(#[trigger] new2[j]) by {
            assert(old2.filter(absent_from(old1)).contains(new2[j]));
            old2.lemma_filter_contains_rev(absent_from(old1), new2[j]);
            if has_key(new1, new2[j].0) {
                let u = key_index(new1, new2[j].0);
                assert(old1.filter(absent_from(old2)).contains(new1[u]));
                old1.lemma_filter_contains_rev(absent_from(old2), new1[u]);
                let z = choose|z: int| 0 <= z < old1.len() && old1[z] == new1[u];
                assert(has_key(old1, new2[j].0));
            }
        }
        lemma_filter_all(new2, absent_from(new1));
    }
    let (added, modified, deleted) = r;
    (sort_offsets(added), sort_offsets(modified), sort_offsets(deleted))
}

/// After a diff, the two indexes share no chunk id: each keeps only the
/// chunks that the other lacked.
pub proof fn lemma_diff_disjoint(old1: Seq<Entry>, old2: Seq<Entry>)
    ensures
        forall|i: int|
            0 <= i < only_in(old1, old2).len() ==> !has_key(
                only_in(old2, old1),
                (#[trigger] only_in(old1, old2)[i]).0,
            ),
{
    let n1 = only_in(old1, old2);
    let n2 = only_in(old2, old1);
    assert forall|i: int| 0 <= i < n1.len() implies !has_key(n2, (#[trigger] n1[i]).0) by {
        old1.lemma_filter_pred(absent_from(old2), i);
        if has_key(n2, n1[i].0) {
            let j = key_index(n2, n1[i].0);
            assert(old2.filter(absent_from(old1)).contains(n2[j]));
            old2.lemma_filter_contains_rev(absent_from(old1), n2[j]);
            let w = choose|w: int| 0 <= w < old2.len() && old2[w] == n2[j];
            assert(has_key(old2, n1[i].0));
        }
    }
}

/// The checksum of a chunk is blind to the order of its lines: two chunks
/// with the same lines, in any order, hash the same text.
pub proof fn lemma_checksum_order_blind(a: Seq<char>, b: Seq<char>)
    requires
        lines_of(a).to_multiset() == lines_of(b).to_multiset(),
    ensures
        checksum_text(a) == checksum_text(b),
{
    lemma_text_le_total();
    lines_of(a).lemma_sort_by_ensures(text_le());
    lines_of(b).lemma_sort_by_ensures(text_le());
    lemma_sorted_unique(lines_of(a).sort_by(text_le()), lines_of(b).sort_by(text_le()), text_le());
}

/// Removing the common ids from both indexes leaves in each the chunks
/// that the other lacks.
proof fn lemma_common_removal(old1: Seq<Entry>, old2: Seq<Entry>)
    ensures
        remove_all(old1, removal_ids(old1, old2, false)) == only_in(old1, old2),
        remove_all(old2, removal_ids(old1, old2, false)) == only_in(old2, old1),
{
    let ids = removal_ids(old1, old2, false);
    lemma_remove_all(old1, ids);
    lemma_remove_all(old2, ids);
    let f = removal_key(old2, false);
    assert forall|i: int| 0 <= i < old1.len() implies #[trigger] id_not_in(ids)(old1[i]) == absent_from(old2)(old1[i]) by {
        lemma_filter_map_contains(old1, f, old1[i].0);
        if ids.contains(old1[i].0) {
            let w = choose|w: int| 0 <= w < old1.len() && f(#[trigger] old1[w]) == Some(old1[i].0);
        }
    }
    lemma_filter_congruent(old1, id_not_in(ids), absent_from(old2));
    assert forall|j: int| 0 <= j < old2.len() implies #[trigger] id_not_in(ids)(old2[j]) == absent_from(old1)(old2[j]) by {
        lemma_filter_map_contains(old1, f, old2[j].0);
        if ids.contains(old2[j].0) {
            let w = choose|w: int| 0 <= w < old1.len() && f(#[trigger] old1[w]) == Some(old2[j].0);
            assert(old1[w].0 == old2[j].0);
        }
        if has_key(old1, old2[j].0) {
            let w = key_index(old1, old2[j].0);
            assert(0 <= w < old1.len() && old1[w].0 == old2[j].0);
            assert(f(old1[w]) == Some(old2[j].0));
        }
    }
    lemma_filter_congruent(old2, id_not_in(ids), absent_from(old1));
}

/// What is left after removals was there before.
proof fn lemma_remove_all_subseq(es: Seq<Entry>, ids: Seq<Seq<char>>)
    ensures
        forall|x: Entry| remove_all(es, ids).contains(x) ==> es.contains(x),
    decreases ids.len(),
{
    if ids.len() > 0 {
        lemma_remove_all_subseq(es, ids.drop_last());
        let prev = remove_all(es, ids.drop_last());
        assert forall|x: Entry| remove_all(es, ids).contains(x) implies es.contains(x) by {
            prev.lemma_filter_contains_rev(key_differs(ids.last()), x);
        }
    }
}

/// Removing ids one after another keeps the entries whose id is none of them.
pub proof fn lemma_remove_all(es: Seq<Entry>, ids: Seq<Seq<char>>)
    ensures
        remove_all(es, ids) == without_ids(es, ids),
    decreases ids.len(),
{
    let p = id_not_in(ids);
    if ids.len() == 0 {
        lemma_filter_all(es, p);
    } else {
        let rest = ids.drop_last();
        let l = ids.last();
        lemma_remove_all(es, rest);
        let pr = |e: Entry| !rest.contains(e.0);
        let q = key_differs(l);
        lemma_filter_filter(es, pr, q);
        assert forall|i: int| 0 <= i < es.len() implies (pr(es[i]) && q(es[i])) == p(#[trigger] es[i]) by {
            let k = es[i].0;
            if ids.contains(k) {
                let w = choose|w: int| 0 <= w < ids.len() && ids[w] == k;
                if w < ids.len() - 1 {
                    assert(rest[w] == k);
                }
            }
            if rest.contains(k) {
                let w = choose|w: int| 0 <= w < rest.len() && rest[w] == k;
                assert(ids[w] == k);
            }
            if k == l {
                assert(ids[ids.len() - 1] == k);
            }
        }
        lemma_filter_congruent(es, |x: Entry| pr(x) && q(x), p);
    }
}

/// `count_less` counts exactly the entries before a split point that puts
/// every smaller key to its left.
proof fn lemma_count_less_split(es: Seq<Entry>, k: Seq<char>, p: int)
    requires
        0 <= p <= es.len(),
        forall|i: int| 0 <= i < p ==> seq_lt(#[trigger] es[i].0, k),
        forall|i: int| p <= i < es.len() ==> !seq_lt(#[trigger] es[i].0, k),
    ensures
        count_less(es, k) == p,
    decreases es.len(),
{
    if es.len() > 0 {
        if p == es.len() {
            lemma_count_less_split(es.drop_last(), k, p - 1);
        } else {
            lemma_count_less_split(es.drop_last(), k, p);
        }
    }
}

/// In an index sorted by id, the ids before the insertion point of `k` come
/// before `k`, and the others do not.
proof fn lemma_count_less_sorted(es: Seq<Entry>, k: Seq<char>)
    requires
        sorted_keys(es),
    ensures
        count_less(es, k) <= es.len(),
        forall|i: int| 0 <= i < count_less(es, k) ==> seq_lt(#[trigger] es[i].0, k),
        forall|i: int| count_less(es, k) <= i < es.len() ==> !seq_lt(#[trigger] es[i].0, k),
    decreases es.len(),
{
    if es.len() > 0 {
        let d = es.drop_last();
        assert forall|i: int, j: int| 0 <= i < j < d.len() implies seq_lt(#[trigger] d[i].0, #[trigger] d[j].0) by {
            assert(d[i] == es[i] && d[j] == es[j]);
        }
        lemma_count_less_sorted(d, k);
        let c = count_less(d, k);
        if seq_lt(es.last().0, k) {
            assert forall|i: int| 0 <= i < es.len() - 1 implies seq_lt(#[trigger] es[i].0, k) by {
                assert(seq_lt(es[i].0, es[es.len() - 1].0));
                lemma_lt_transitive(es[i].0, es[es.len() - 1].0, k);
            }
        } else {
            assert forall|i: int| 0 <= i < c implies seq_lt(#[trigger] es[i].0, k) by {
                assert(es[i] == d[i]);
            }
            assert forall|i: int| c <= i < es.len() implies !seq_lt(#[trigger] es[i].0, k) by {
                if i < es.len() - 1 {
                    assert(es[i] == d[i]);
                }
            }
        }
    }
}

/// What `insert` stores, `search` finds: once a new chunk id is inserted
/// with a payload, the index has the id, with that payload, and stays
/// sorted by id with each id once.
pub proof fn lemma_insert_then_search(es: Seq<Entry>, k: Seq<char>, p: Seq<char>)
    requires
        sorted_keys(es),
        !has_key(es, k),
    ensures
        sorted_keys(es.insert(count_less(es, k) as int, (k, p))),
        has_key(es.insert(count_less(es, k) as int, (k, p)), k),
        value_of(es.insert(count_less(es, k) as int, (k, p)), k) == p,
{
    lemma_count_less_sorted(es, k);
    let c = count_less(es, k) as int;
    let ns = es.insert(c, (k, p));
    assert forall|i: int| 0 <= i < es.len() implies (#[trigger] es[i]).0 != k by {
        if es[i].0 == k {
            assert(has_key(es, k));
        }
    }
    assert forall|i: int, j: int| 0 <= i < j < ns.len() implies seq_lt(#[trigger] ns[i].0, #[trigger] ns[j].0) by {
        if j < c {
        } else if j == c {
        } else if i == c {
            lemma_lt_total(es[j - 1].0, k);
        } else if i < c {
            lemma_lt_total(es[j - 1].0, k);
            lemma_lt_transitive(es[i].0, k, es[j - 1].0);
        } else {
        }
    }
    assert(ns[c] == (k, p));
    lemma_value_of_unique(ns, k, c);
}

/// After `remove`, the id is absent, and every other id keeps its payload.
pub proof fn lemma_remove_then_search(es: Seq<Entry>, k: Seq<char>, other: Seq<char>)
    requires
        sorted_keys(es),
        other != k,
    ensures
        !has_key(without_key(es, k), k),
        has_key(without_key(es, k), other) == has_key(es, other),
        has_key(es, other) ==> value_of(without_key(es, k), other) == value_of(es, other),
{
    let w = without_key(es, k);
    if has_key(w, k) {
        let i = key_index(w, k);
        es.lemma_filter_pred(key_differs(k), i);
        assert(key_differs(k)(w[i]));
    }
    if has_key(w, other) {
        let i = key_index(w, other);
        assert(es.filter(key_differs(k)).contains(w[i]));
        es.lemma_filter_contains_rev(key_differs(k), w[i]);
        let j = choose|j: int| 0 <= j < es.len() && es[j] == w[i];
        assert(es[j].0 == other);
    }
    if has_key(es, other) {
        let i = key_index(es, other);
        assert(key_differs(k)(es[i]));
        es.lemma_filter_contains(key_differs(k), i);
        assert(w.contains(es[i]));
        let j = choose|j: int| 0 <= j < w.len() && w[j] == es[i];
        lemma_without_key_sorted(es, k);
        lemma_value_of_unique(w, other, j);
        lemma_value_of_unique(es, other, i);
    }
}

/// Removing an id keeps the index sorted.
proof fn lemma_without_key_sorted(es: Seq<Entry>, k: Seq<char>)
    requires
        sorted_keys(es),
    ensures
        sorted_keys(without_key(es, k)),
{
    if has_key(es, k) {
        let p = key_index(es, k);
        lemma_without_key_at(es, k, p);
    } else {
        assert forall|i: int| 0 <= i < es.len() implies (#[trigger] es[i]).0 != k by {
            if es[i].0 == k {
                assert(has_key(es, k));
            }
        }
        lemma_without_absent_key(es, k);
    }
}

/// With sorted keys, a key that is neither before nor at its insertion
/// point is absent.
proof fn lemma_absent_key(es: Seq<Entry>, k: Seq<char>, p: int)
    requires
        sorted_keys(es),
        0 <= p <= es.len(),
        forall|i: int| 0 <= i < p ==> seq_lt(#[trigger] es[i].0, k),
        forall|i: int| p <= i < es.len() ==> !seq_lt(#[trigger] es[i].0, k),
        !(p < es.len() && es[p].0 == k),
    ensures
        forall|i: int| 0 <= i < es.len() ==> (#[trigger] es[i]).0 != k,
        !has_key(es, k),
{
    assert forall|i: int| 0 <= i < es.len() implies (#[trigger] es[i]).0 != k by {
        if i < p {
            lemma_lt_irreflexive(k);
        } else if i > p {
            lemma_lt_total(es[p].0, k);
            assert(seq_lt(k, es[p].0));
            assert(seq_lt(es[p].0, es[i].0));
            lemma_lt_transitive(k, es[p].0, es[i].0);
            lemma_lt_irreflexive(k);
        }
    }
}

/// With sorted keys, the payload of a key is the one stored at its position.
pub proof fn lemma_value_of_unique(es: Seq<Entry>, k: Seq<char>, p: int)
    requires
        sorted_keys(es),
        0 <= p < es.len(),
        es[p].0 == k,
    ensures
        has_key(es, k),
        value_of(es, k) == es[p].1,
{
    assert(0 <= p < es.len() && es[p].0 == k);
    let c = key_index(es, k);
    assert(0 <= c < es.len() && es[c].0 == k);
    assert(value_of(es, k) == es[c].1);
    if c != p {
        if c < p {
            assert(seq_lt(es[c].0, es[p].0));
        } else {
            assert(seq_lt(es[p].0, es[c].0));
        }
        lemma_lt_irreflexive(k);
    }
}

/// Removing the only entry with a key is filtering the key out.
proof fn lemma_without_key_at(es: Seq<Entry>, k: Seq<char>, p: int)
    requires
        sorted_keys(es),
        0 <= p < es.len(),
        es[p].0 == k,
    ensures
        without_key(es, k) == es.remove(p),
        sorted_keys(es.remove(p)),
    decreases es.len(),
{
    reveal(Seq::filter);
    assert forall|i: int| 0 <= i < es.len() && i != p implies (#[trigger] es[i]).0 != k by {
        if i < p {
            assert(seq_lt(es[i].0, es[p].0));
        } else {
            assert(seq_lt(es[p].0, es[i].0));
        }
        lemma_lt_irreflexive(k);
    }
    if p == es.len() - 1 {
        lemma_without_absent_key(es.drop_last(), k);
        assert(es.remove(p) =~= es.drop_last());
    } else {
        let d = es.drop_last();
        assert forall|i: int, j: int| 0 <= i < j < d.len() implies seq_lt(#[trigger] d[i].0, #[trigger] d[j].0) by {
            assert(d[i] == es[i] && d[j] == es[j]);
        }
        lemma_without_key_at(d, k, p);
        assert(es.last().0 != k);
        assert(es.remove(p) =~= d.remove(p).push(es.last()));
    }
}

/// Filtering out a key that is absent changes nothing.
proof fn lemma_without_absent_key(es: Seq<Entry>, k: Seq<char>)
    requires
        forall|i: int| 0 <= i < es.len() ==> (#[trigger] es[i]).0 != k,
    ensures
        without_key(es, k) == es,
    decreases es.len(),
{
    reveal(Seq::filter);
    if es.len() > 0 {
        lemma_without_absent_key(es.drop_last(), k);
        assert(es.drop_last().push(es.last()) =~= es);
    } else {
        assert(without_key(es, k) =~= es);
    }
}

} // verus!

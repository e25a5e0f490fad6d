//! The XML diff of two big files.
//! Each file is read in chunks; the elements of a chosen tag (the chunk
//! delimiter) are cut out of the stream, each element gets an id made of
//! the contents of its key tags and a checksum of its lines, and the ids,
//! checksums and byte offsets are kept in a `ChunkIndex`. Two indexes are
//! then compared. This is not an XML validator: comments and CDATA
//! sections are not expected.
use vstd::prelude::*;
use vstd::utf8::encode_utf8;
use crate::lex::chars_of;
use crate::text::{text, joined, texts};
use crate::config::Config;
use crate::text::{join_with, join_texts, same_text};
use crate::payload::{parse_usize, parse_offset, decimal, usize_text, digit_char};
use crate::chunk_index::{
    ChunkIndex, Entry, has_key, count_less, value_of, sha256_hex, checksum_text, calculate_checksum,
    diff_ok, only_in, ascending, modified_offsets, deleted_offsets, offsets,
};

verus! {

broadcast use vstd::string::group_string_axioms;

/// `pat` occurs in `s` at position `i`.
pub open spec fn occurs_at(s: Seq<char>, pat: Seq<char>, i: int) -> bool {
    0 <= i && i + pat.len() <= s.len() && s.subrange(i, i + pat.len()) == pat
}

/// The first position, from `i` on, where `pat` occurs in `s`.
pub open spec fn find_from(s: Seq<char>, pat: Seq<char>, i: int) -> Option<int>
    decreases s.len() + 1 - i,
{
    if i < 0 || i + pat.len() > s.len() {
        None
    } else if occurs_at(s, pat, i) {
        Some(i)
    } else {
        find_from(s, pat, i + 1)
    }
}

/// The first position where `pat` occurs in `s`: what `str::find` gives,
/// counted in characters.
pub open spec fn first_index(s: Seq<char>, pat: Seq<char>) -> Option<int> {
    find_from(s, pat, 0)
}

/// An optional position as an integer.
pub open spec fn opt_pos(r: Option<usize>) -> Option<int> {
    match r {
        Some(k) => Some(k as int),
        None => None,
    }
}

/// The first position where `pat` occurs in `s`.
pub fn find_chars(s: &Vec<char>, pat: &Vec<char>) -> (r: Option<usize>)
    ensures
        opt_pos(r) == first_index(s@, pat@),
{
    find_chars_from(s, pat, 0)
}

/// The first position, from `from` on, where `pat` occurs in `s`.
pub fn find_chars_from(s: &Vec<char>, pat: &Vec<char>, from: usize) -> (r: Option<usize>)
    ensures
        opt_pos(r) == find_from(s@, pat@, from as int),
{
    if pat.len() > s.len() {
        return None;
    }
    let last = s.len() - pat.len();
    if from > last {
        return None;
    }
    let mut i: usize = from;
    while i <= last
        invariant
            last == s.len() - pat.len(),
            pat.len() <= s.len(),
            from <= i <= last + 1,
            find_from(s@, pat@, from as int) == find_from(s@, pat@, i as int),
        decreases last + 1 - i,
    {
        let mut k: usize = 0;
        let mut same = true;
        while k < pat.len()
            invariant
                i <= last,
                last == s.len() - pat.len(),
                k <= pat.len(),
                same == (forall|j: int| 0 <= j < k ==> s@[i + j] == pat@[j]),
            decreases pat.len() - k,
        {
            if s[i + k] != pat[k] {
                same = false;
            }
            k = k + 1;
        }
        proof {
            if same {
                assert(s@.subrange(i as int, i + pat@.len()) =~= pat@);
            } else {
                let j = choose|j: int| 0 <= j < pat.len() && s@[i + j] != pat@[j];
                assert(s@.subrange(i as int, i + pat@.len())[j] != pat@[j]);
            }
        }
        if same {
            return Some(i);
        }
        i = i + 1;
    }
    None
}

/// The opening tag of an element: `<name>`.
pub open spec fn start_tag(name: Seq<char>) -> Seq<char> {
    seq!['<'] + name + seq!['>']
}

/// The closing tag of an element: `</name>`.
pub open spec fn end_tag(name: Seq<char>) -> Seq<char> {
    seq!['<', '/'] + name + seq!['>']
}

/// The opening and closing tags of an element name.
fn tags_of(name: &str) -> (r: (String, String))
    ensures
        r.0@ == start_tag(name@),
        r.1@ == end_tag(name@),
{
    let open1 = joined("<", name);
    let open2 = joined(open1.as_str(), ">");
    let close1 = joined("</", name);
    let close2 = joined(close1.as_str(), ">");
    proof {
        reveal_strlit("<");
        reveal_strlit(">");
        reveal_strlit("</");
        assert(open2@ =~= start_tag(name@));
        assert(close2@ =~= end_tag(name@));
    }
    (open2, close2)
}

/// `get_xml_chunk` cuts out of `data` the contents of the first element
/// delimited by the chunk delimiter of `cfg`: when the opening tag `<D>`
/// is present and the closing tag `</D>` follows it, it returns the text
/// between the first opening tag and the first closing tag after it, with
/// the byte offset in `data` of the first character after the opening
/// tag, and leaves in `data` what follows that closing tag. Otherwise it
/// returns `None` and leaves `data` as it was.
pub fn get_xml_chunk(data: &mut String, cfg: &Config) -> (r: Option<(String, usize)>)
    ensures
        ({
            let st = start_tag(cfg.chunk_delimiter@);
            let et = end_tag(cfg.chunk_delimiter@);
            match first_index(old(data)@, st) {
                Some(s) => match find_from(old(data)@, et, s + st.len()) {
                    Some(e) => r matches Some((chunk, offset)) && chunk@ == old(data)@.subrange(
                        s + st.len(),
                        e,
                    ) && final(data)@ == old(data)@.skip(e + et.len()) && offset == encode_utf8(
                        old(data)@.take(s + st.len()),
                    ).len() as usize,
                    None => r is None && final(data)@ == old(data)@,
                },
                None => r is None && final(data)@ == old(data)@,
            }
        }),
{
    let (st, et) = tags_of(cfg.chunk_delimiter.as_str());
    let ds = chars_of(data.as_str());
    let ss = chars_of(st.as_str());
    let es = chars_of(et.as_str());
    let start = find_chars(&ds, &ss);
    match start {
        Some(s) => {
            proof {
                lemma_find_from_found(ds@, ss@, 0);
                assert(occurs_at(ds@, ss@, s as int));
                assert(s + ss.len() <= ds.len());
            }
            let content_start = s + ss.len();
            let end = find_chars_from(&ds, &es, content_start);
            match end {
                Some(e) => {
                    proof {
                        lemma_find_from_found(ds@, es@, content_start as int);
                        assert(occurs_at(ds@, es@, e as int) && e >= content_start);
                        assert(e + es.len() <= ds.len());
                    }
                    let el = es.len();
                    let after = e + el;
                    let d = data.as_str();
                    let prefix = d.substring_char(0, content_start);
                    let offset = prefix.len();
                    let chunk = d.substring_char(content_start, e).to_string();
                    let rest = d.substring_char(after, ds.len()).to_string();
                    proof {
                        assert(rest@ =~= data@.skip(after as int));
                        assert(prefix@ =~= data@.take(content_start as int));
                    }
                    *data = rest;
                    Some((chunk, offset))
                },
                None => None,
            }
        },
        None => None,
    }
}

/// A position that `find_from` gives is an occurrence.
proof fn lemma_find_from_found(s: Seq<char>, pat: Seq<char>, i: int)
    ensures
        find_from(s, pat, i) matches Some(k) ==> occurs_at(s, pat, k) && k >= i,
    decreases s.len() + 1 - i,
{
    if !(i < 0 || i + pat.len() > s.len()) && !occurs_at(s, pat, i) {
        lemma_find_from_found(s, pat, i + 1);
    }
}

/// A tag closed while scanning: the characters of the tag (without the
/// angle brackets) and the text that came before it since the previous
/// closing '>'.
pub type Closed = (Seq<char>, Seq<char>);

/// The state of `get_id`'s scan after reading `data`: whether it is inside
/// a tag, the tag read so far, the text read so far, and the tags closed.
/// A '<' enters a tag, a '>' closes it; other characters go to the tag
/// inside one and to the text outside.
pub open spec fn scan(data: Seq<char>) -> (bool, Seq<char>, Seq<char>, Seq<Closed>)
    decreases data.len(),
{
    if data.len() == 0 {
        (false, Seq::empty(), Seq::empty(), Seq::empty())
    } else {
        let (inside, tag, content, closed) = scan(data.drop_last());
        let c = data.last();
        if c == '<' {
            (true, tag, content, closed)
        } else if c == '>' {
            (false, Seq::empty(), Seq::empty(), closed.push((tag, content)))
        } else if inside {
            (inside, tag.push(c), content, closed)
        } else {
            (inside, tag, content.push(c), closed)
        }
    }
}

/// The tags that `data` closes, with the text before each.
pub open spec fn closed_tags(data: Seq<char>) -> Seq<Closed> {
    scan(data).3
}

/// The texts before each closing of `key`, one after another.
pub open spec fn key_text(closed: Seq<Closed>, key: Seq<char>) -> Seq<char>
    decreases closed.len(),
{
    if closed.len() == 0 {
        Seq::empty()
    } else {
        key_text(closed.drop_last(), key) + if closed.last().0 == key {
            closed.last().1
        } else {
            Seq::<char>::empty()
        }
    }
}

/// Whether some tag closed in `closed` is the key.
pub open spec fn key_found(closed: Seq<Closed>, key: Seq<char>) -> bool
    decreases closed.len(),
{
    if closed.len() == 0 {
        false
    } else {
        key_found(closed.drop_last(), key) || closed.last().0 == key
    }
}

/// Whether every key is closed somewhere in `closed`.
pub open spec fn all_keys_found(closed: Seq<Closed>, keys: Seq<Seq<char>>) -> bool {
    forall|k: int| 0 <= k < keys.len() ==> key_found(closed, #[trigger] keys[k])
}

/// No key from position `n` on is ever closed: `get_id` only writes the
/// first `n` keys.
pub open spec fn keys_fit(closed: Seq<Closed>, keys: Seq<Seq<char>>, n: int) -> bool {
    forall|i: int, j: int|
        n <= i < keys.len() && 0 <= j < closed.len() ==> #[trigger] closed[j].0 != #[trigger] keys[i]
}

/// What `get_id` leaves in the `k`-th slot: the texts of the `k`-th key,
/// or nothing past the keys.
pub open spec fn slot_text(closed: Seq<Closed>, keys: Seq<Seq<char>>, k: int) -> Seq<char> {
    if k < keys.len() {
        key_text(closed, keys[k])
    } else {
        Seq::empty()
    }
}

/// `get_id` calculates an id from the key tags of an XML chunk: every slot
/// of `return_key` is emptied, then, for each closing tag `</K>` of `data`
/// that equals the `i`-th key (the keys are closing tags, "/K"), the text
/// that came before it is appended to slot `i`. It returns whether all
/// the keys are found.
pub fn get_id(
    data: &String,
    xml_keys: &Vec<String>,
    return_key: &mut Vec<String>,
    worker_id_string: &String,
    verbosity: i8,
) -> (r: bool)
    requires
        keys_fit(closed_tags(data@), texts(xml_keys@), old(return_key)@.len() as int),
    ensures
        final(return_key)@.len() == old(return_key)@.len(),
        forall|k: int|
            0 <= k < final(return_key)@.len() ==> (#[trigger] final(return_key)@[k])@ == slot_text(
                closed_tags(data@),
                texts(xml_keys@),
                k,
            ),
        r == all_keys_found(closed_tags(data@), texts(xml_keys@)),
{
    let ghost keys = texts(xml_keys@);
    let n = return_key.len();
    let mut t: usize = 0;
    while t < n
        invariant
            n == return_key@.len(),
            t <= n,
            forall|k: int| 0 <= k < t ==> (#[trigger] return_key@[k])@ == Seq::<char>::empty(),
        decreases n - t,
    {
        return_key.set(t, String::new());
        t = t + 1;
    }
    let ds = chars_of(data.as_str());
    let mut key_chars: Vec<Vec<char>> = Vec::new();
    for k in 0..xml_keys.len()
        invariant
            key_chars@.len() == k,
            forall|j: int| 0 <= j < k ==> (#[trigger] key_chars@[j])@ == xml_keys@[j]@,
    {
        key_chars.push(chars_of(xml_keys[k].as_str()));
    }
    let mut inside = false;
    let mut tag: Vec<char> = Vec::new();
    let mut cs: usize = 0;
    let mut ce: usize = 0;
    let mut seen: Vec<bool> = Vec::new();
    for k in 0..xml_keys.len()
        invariant
            seen@.len() == k,
            forall|j: int| 0 <= j < k ==> !(#[trigger] seen@[j]),
    {
        seen.push(false);
    }
    let mut p: usize = 0;
    proof {
        assert(ds@.take(0) =~= Seq::<char>::empty());
        assert(ds@.subrange(0, 0) =~= Seq::<char>::empty());
    }
    while p < ds.len()
        invariant
            ds@ == data@,
            keys == texts(xml_keys@),
            key_chars@.len() == xml_keys@.len(),
            forall|j: int| 0 <= j < key_chars@.len() ==> (#[trigger] key_chars@[j])@ == keys[j],
            keys_fit(closed_tags(data@), keys, n as int),
            n == return_key@.len(),
            p <= ds.len(),
            cs <= ce <= p,
            !inside ==> ce == p,
            scan(ds@.take(p as int)) == (inside, tag@, ds@.subrange(cs as int, ce as int), closed_tags(ds@.take(p as int))),
            seen@.len() == keys.len(),
            forall|k: int| 0 <= k < seen@.len() ==> #[trigger] seen@[k] == key_found(closed_tags(ds@.take(p as int)), keys[k]),
            forall|k: int|
                0 <= k < n ==> (#[trigger] return_key@[k])@ == slot_text(
                    closed_tags(ds@.take(p as int)),
                    keys,
                    k,
                ),
        decreases ds.len() - p,
    {
        let ghost before = ds@.take(p as int);
        let ghost closed0 = closed_tags(before);
        proof {
            assert(ds@.take(p + 1).drop_last() =~= before);
            assert(ds@.take(p + 1).last() == ds@[p as int]);
            lemma_closed_prefix(ds@, p as int + 1);
        }
        let c = ds[p];
        if c == '<' {
            inside = true;
        } else if c == '>' {
            let ghost ev: Closed = (tag@, ds@.subrange(cs as int, ce as int));
            let ghost closed1 = closed0.push(ev);
            let content = data.as_str().substring_char(cs, ce);
            proof {
                assert(closed1 == closed_tags(ds@.take(p + 1)));
                assert(closed1.drop_last() =~= closed0);
                assert(closed1.last() == ev);
            }
            let mut i: usize = 0;
            while i < key_chars.len()
                invariant
                    ds@ == data@,
                    keys == texts(xml_keys@),
                    key_chars@.len() == xml_keys@.len(),
                    forall|j: int| 0 <= j < key_chars@.len() ==> (#[trigger] key_chars@[j])@ == keys[j],
                    keys_fit(closed_tags(data@), keys, n as int),
                    p < ds.len(),
                    closed1 == closed_tags(ds@.take(p + 1)),
                    closed1 == closed0.push(ev),
                    ev == (tag@, content@),
                    n == return_key@.len(),
                    i <= key_chars.len(),
                    seen@.len() == keys.len(),
                    forall|k: int| 0 <= k < seen@.len() ==> #[trigger] seen@[k] == if k < i {
                        key_found(closed1, keys[k])
                    } else {
                        key_found(closed0, keys[k])
                    },
                    forall|k: int|
                        0 <= k < n ==> (#[trigger] return_key@[k])@ == if k < i {
                            slot_text(closed1, keys, k)
                        } else {
                            slot_text(closed0, keys, k)
                        },
                decreases key_chars.len() - i,
            {
                proof {
                    assert(closed1.drop_last() =~= closed0);
                    assert(closed1.last() == ev);
                    assert(key_found(closed1, keys[i as int]) == (key_found(closed0, keys[i as int]) || tag@ == keys[i as int]));
                }
                if same_chars(&tag, &key_chars[i]) {
                    if i < n {
                        let mut cur = return_key[i].clone();
                        cur.append(content);
                        return_key.set(i, cur);
                    } else {
                        proof {
                            lemma_closed_in_whole(ds@, p as int + 1, closed1.len() - 1);
                            assert(closed_tags(data@).contains(ev));
                            let w = choose|w: int| 0 <= w < closed_tags(data@).len() && closed_tags(data@)[w] == ev;
                            assert(closed_tags(data@)[w].0 != keys[i as int]);
                        }
                    }
                    seen.set(i, true);
                }
                i = i + 1;
            }

            tag = Vec::new();
            cs = p + 1;
            ce = p + 1;
            inside = false;
        } else if inside {
            tag.push(c);
        } else {
            ce = p + 1;
            proof {
                assert(ds@.subrange(cs as int, p + 1) =~= ds@.subrange(cs as int, p as int).push(c));
            }
        }
        proof {
            assert(tag@ == scan(ds@.take(p + 1)).1);
        }
        p = p + 1;
    }
    proof {
        assert(ds@.take(ds@.len() as int) =~= ds@);
    }
    let mut all = true;
    let mut k: usize = 0;
    while k < seen.len()
        invariant
            seen@.len() == keys.len(),
            k <= seen@.len(),
            all == forall|j: int| 0 <= j < k ==> #[trigger] seen@[j],
            keys == texts(xml_keys@),
            forall|j: int| 0 <= j < seen@.len() ==> #[trigger] seen@[j] == key_found(closed_tags(data@), keys[j]),
        decreases seen.len() - k,
    {
        if !seen[k] {
            all = false;
        }
        k = k + 1;
    }
    proof {
        if all {
            assert forall|j: int| 0 <= j < keys.len() implies key_found(closed_tags(data@), #[trigger] keys[j]) by {
                assert(seen@[j]);
            }
        } else {
            let j = choose|j: int| 0 <= j < seen@.len() && !seen@[j];
            assert(!key_found(closed_tags(data@), keys[j]));
        }
    }
    all
}

/// Whether two character vectors are equal.
fn same_chars(a: &Vec<char>, b: &Vec<char>) -> (r: bool)
    ensures
        r == (a@ == b@),
{
    if a.len() != b.len() {
        return false;
    }
    let mut i: usize = 0;
    while i < a.len()
        invariant
            i <= a.len(),
            a.len() == b.len(),
            forall|k: int| 0 <= k < i ==> a@[k] == b@[k],
        decreases a.len() - i,
    {
        if a[i] != b[i] {
            return false;
        }
        i = i + 1;
    }
    assert(a@ =~= b@);
    true
}

/// Reading one more character closes at most one more tag, and keeps
/// the tags closed before.
proof fn lemma_closed_prefix(data: Seq<char>, p: int)
    requires
        0 < p <= data.len(),
    ensures
        closed_tags(data.take(p)).len() == closed_tags(data.take(p - 1)).len()
            || closed_tags(data.take(p)).len() == closed_tags(data.take(p - 1)).len() + 1,
        forall|i: int|
            0 <= i < closed_tags(data.take(p - 1)).len() ==> #[trigger] closed_tags(data.take(p))[i]
                == closed_tags(data.take(p - 1))[i],
{
    assert(data.take(p).drop_last() =~= data.take(p - 1));
}

/// A tag closed by a prefix is closed by the whole text.
proof fn lemma_closed_in_whole(data: Seq<char>, p: int, j: int)
    requires
        0 <= p <= data.len(),
        0 <= j < closed_tags(data.take(p)).len(),
    ensures
        closed_tags(data).contains(closed_tags(data.take(p))[j]),
    decreases data.len() - p,
{
    if p == data.len() {
        assert(data.take(p) =~= data);
        assert(closed_tags(data)[j] == closed_tags(data.take(p))[j]);
    } else {
        lemma_closed_prefix(data, p + 1);
        assert(data.take(p + 1 - 1) =~= data.take(p));
        lemma_closed_in_whole(data, p + 1, j);
    }
}

/// `process_chunk` gets the id and the checksum of an XML chunk: when
/// `get_id` finds the keys, the key texts joined with '&', and the
/// checksum of the chunk; otherwise an error. `chunk_id` is left as
/// `get_id` leaves it.
pub fn process_chunk(
    xml_chunk: &String,
    chunk_id: &mut Vec<String>,
    xml_keys: &Vec<String>,
    worker_id_string: &String,
    verbosity: i8,
) -> (r: Result<(String, String), String>)
    requires
        keys_fit(closed_tags(xml_chunk@), texts(xml_keys@), old(chunk_id)@.len() as int),
    ensures
        final(chunk_id)@.len() == old(chunk_id)@.len(),
        forall|k: int|
            0 <= k < final(chunk_id)@.len() ==> (#[trigger] final(chunk_id)@[k])@ == slot_text(
                closed_tags(xml_chunk@),
                texts(xml_keys@),
                k,
            ),
        all_keys_found(closed_tags(xml_chunk@), texts(xml_keys@)) ==> (r matches Ok(
            (id, sum),
        ) && id@ == join_texts(texts(final(chunk_id)@), seq!['&']) && sum@ == sha256_hex(
            checksum_text(xml_chunk@),
        )),
        !all_keys_found(closed_tags(xml_chunk@), texts(xml_keys@)) ==> (r matches Err(
            e,
        ) && e@ == "get_id: Unable to find key"@),
{
    if get_id(xml_chunk, xml_keys, chunk_id, worker_id_string, verbosity) {
        let checksum = calculate_checksum(xml_chunk);
        let id = join_with(chunk_id, "&");
        proof {
            reveal_strlit("&");
            assert("&"@ =~= seq!['&']);
        }
        Ok((id, checksum))
    } else {
        Err(text("get_id: Unable to find key"))
    }
}

/// The lowercase hex digit of a number below sixteen.
pub open spec fn hex_digit(d: nat) -> char {
    if d < 10 {
        digit_char(d)
    } else if d == 10 {
        'a'
    } else if d == 11 {
        'b'
    } else if d == 12 {
        'c'
    } else if d == 13 {
        'd'
    } else if d == 14 {
        'e'
    } else {
        'f'
    }
}

/// Two lowercase hex digits per byte.
pub open spec fn hex_text(bytes: Seq<u8>) -> Seq<char>
    decreases bytes.len(),
{
    if bytes.len() == 0 {
        Seq::empty()
    } else {
        hex_text(bytes.drop_last()) + seq![
            hex_digit(bytes.last() as nat / 16),
            hex_digit(bytes.last() as nat % 16),
        ]
    }
}

/// The text of one hex digit.
fn hex_digit_str(d: u8) -> (r: &'static str)
    requires
        d < 16,
    ensures
        r@ == seq![hex_digit(d as nat)],
{
    proof {
        reveal_strlit("0");
        reveal_strlit("1");
        reveal_strlit("2");
        reveal_strlit("3");
        reveal_strlit("4");
        reveal_strlit("5");
        reveal_strlit("6");
        reveal_strlit("7");
        reveal_strlit("8");
        reveal_strlit("9");
        reveal_strlit("a");
        reveal_strlit("b");
        reveal_strlit("c");
        reveal_strlit("d");
        reveal_strlit("e");
        reveal_strlit("f");
    }
    match d {
        0 => "0",
        1 => "1",
        2 => "2",
        3 => "3",
        4 => "4",
        5 => "5",
        6 => "6",
        7 => "7",
        8 => "8",
        9 => "9",
        10 => "a",
        11 => "b",
        12 => "c",
        13 => "d",
        14 => "e",
        _ => "f",
    }
}

/// `hex` transforms bytes into a hex string, two lowercase digits a byte.
pub fn hex(bytes: &[u8]) -> (r: String)
    ensures
        r@ == hex_text(bytes@),
{
    let mut r = String::new();
    let mut i: usize = 0;
    while i < bytes.len()
        invariant
            i <= bytes.len(),
            r@ == hex_text(bytes@.take(i as int)),
        decreases bytes.len() - i,
    {
        let b = bytes[i];
        r.append(hex_digit_str(b / 16));
        r.append(hex_digit_str(b % 16));
        proof {
            assert(bytes@.take(i + 1).drop_last() =~= bytes@.take(i as int));
            assert(bytes@.take(i + 1).last() == b);
            assert(r@ =~= hex_text(bytes@.take(i + 1)));
        }
        i = i + 1;
    }
    proof {
        assert(bytes@.take(bytes@.len() as int) =~= bytes@);
    }
    r
}

/// The payload stored for a processed chunk: "checksum&offset".
pub open spec fn result_payload(checksum: Seq<char>, offset: usize) -> Seq<char> {
    checksum + seq!['&'] + decimal(offset as nat)
}

/// The error for a chunk id that the index has already.
pub open spec fn duplicate_error(offset: usize, id: Seq<char>, prev: Seq<char>) -> Seq<char> {
    "At offset "@ + decimal(offset as nat) + ", found existing key "@ + id + " at sha&offset "@
        + prev
}

/// `process_response` takes a worker's reply. "READYFORWORK" announces a
/// new worker: the result is 1. Any other reply carries a processed chunk
/// (id, checksum, offset), which is added to the index with the payload
/// "checksum&offset"; the result is -1 for "LASTRESULT" (the worker stops)
/// and 0 otherwise. A chunk id that the index has already is an error that
/// names the offset, the id and the payload found.
pub fn process_response(
    response_type: &String,
    processed_id: &String,
    processed_checksum: &String,
    processed_offset: &String,
    chunk_index: &mut ChunkIndex,
    verbosity: i8,
) -> (r: Result<i8, String>)
    requires
        old(chunk_index).wf(),
        response_type@ != "READYFORWORK"@ ==> parse_usize(processed_offset@) is Some,
    ensures
        final(chunk_index).wf(),
        final(chunk_index).file == old(chunk_index).file,
        response_type@ == "READYFORWORK"@ ==> r == Ok::<i8, String>(1) && *final(chunk_index)
            == *old(chunk_index),
        response_type@ != "READYFORWORK"@ ==> ({
            let offset = parse_usize(processed_offset@).unwrap();
            let es = old(chunk_index).entries();
            if has_key(es, processed_id@) {
                &&& final(chunk_index).entries() == es
                &&& r matches Err(e) && e@ == duplicate_error(
                    offset,
                    processed_id@,
                    value_of(es, processed_id@),
                )
            } else {
                &&& final(chunk_index).entries() == es.insert(
                    count_less(es, processed_id@) as int,
                    (processed_id@, result_payload(processed_checksum@, offset)),
                )
                &&& r == Ok::<i8, String>(if response_type@ == "LASTRESULT"@ { -1i8 } else { 0i8 })
            }
        }),
{
    if same_text(response_type.as_str(), "READYFORWORK") {
        return Ok(1);
    }
    let offset = parse_offset(processed_offset.as_str()).unwrap();
    let offset_text = usize_text(offset);
    let mut payload = joined(processed_checksum.as_str(), "&");
    payload.append(offset_text.as_str());
    proof {
        reveal_strlit("&");
        assert(payload@ =~= result_payload(processed_checksum@, offset));
    }
    if !chunk_index.insert(processed_id.clone(), payload) {
        let prev = match chunk_index.search(processed_id) {
            Some(p) => p.clone(),
            None => text("Unset"),
        };
        let mut e = joined("At offset ", offset_text.as_str());
        e.append(", found existing key ");
        e.append(processed_id.as_str());
        e.append(" at sha&offset ");
        e.append(prev.as_str());
        return Err(e);
    }
    if same_text(response_type.as_str(), "LASTRESULT") {
        Ok(-1)
    } else {
        Ok(0)
    }
}

/// `calculate_diff` of a diff run: compares two chunk indexes, the first
/// seen as the old version and the second as the new one, as
/// `chunk_index::calculate_diff` does, at the run's verbosity: the offsets
/// of the added, modified and deleted chunks, each list sorted by offset,
/// and the chunks found in both indexes removed from both.
pub fn calculate_diff(cfg: &Config, idx1: &mut ChunkIndex, idx2: &mut ChunkIndex) -> (r: (
    Vec<usize>,
    Vec<usize>,
    Vec<usize>,
))
    requires
        old(idx1).wf(),
        old(idx2).wf(),
        diff_ok(old(idx1).entries(), old(idx2).entries()),
    ensures
        final(idx1).wf(),
        final(idx2).wf(),
        final(idx1).file == old(idx1).file,
        final(idx2).file == old(idx2).file,
        final(idx1).entries() == only_in(old(idx1).entries(), old(idx2).entries()),
        final(idx2).entries() == only_in(old(idx2).entries(), old(idx1).entries()),
        ascending(r.0@),
        ascending(r.1@),
        ascending(r.2@),
        r.0@.to_multiset() == offsets(only_in(old(idx2).entries(), old(idx1).entries())).to_multiset(),
        r.1@.to_multiset() == modified_offsets(old(idx1).entries(), old(idx2).entries()).to_multiset(),
        r.2@.to_multiset() == deleted_offsets(old(idx1).entries(), old(idx2).entries()).to_multiset(),
{
    crate::chunk_index::calculate_diff(idx1, idx2, cfg.verbosity)
}

} // verus!

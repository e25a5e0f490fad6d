//! Small string helpers shared by the modules of the crate.
use vstd::prelude::*;
use vstd::string::StringExecFns;
use vstd::relations::{sorted_by, total_ordering};
use crate::lex::{chars_of, seq_lt, str_lt, lemma_lt_irreflexive, lemma_lt_transitive, lemma_lt_total, lemma_lt_asymmetric};

verus! {

broadcast use vstd::string::group_string_axioms;

/// Builds an owned `String` from a string slice.
pub fn text(s: &str) -> (r: String)
    ensures
        r@ == s@,
{
    s.to_string()
}

/// The concatenation of two string slices.
pub fn joined(a: &str, b: &str) -> (r: String)
    ensures
        r@ == a@ + b@,
{
    let mut s = a.to_string();
    s.append(b);
    s
}

/// Whether two string slices hold the same characters.
pub fn same_text(a: &str, b: &str) -> (r: bool)
    ensures
        r == (a@ == b@),
{
    let va = chars_of(a);
    let vb = chars_of(b);
    if va.len() != vb.len() {
        return false;
    }
    let mut i: usize = 0;
    while i < va.len()
        invariant
            i <= va.len(),
            va.len() == vb.len(),
            va@ == a@,
            vb@ == b@,
            forall|k: int| 0 <= k < i ==> va@[k] == vb@[k],
        decreases va.len() - i,
    {
        if va[i] != vb[i] {
            return false;
        }
        i = i + 1;
    }
    assert(va@ =~= vb@);
    true
}

/// The characters of each string of a vector.
pub open spec fn texts(v: Seq<String>) -> Seq<Seq<char>> {
    v.map_values(|s: String| s@)
}

/// The fields of `s` separated by `sep`, read from left to right: an empty
/// string has one empty field.
pub open spec fn split_on(s: Seq<char>, sep: char) -> Seq<Seq<char>>
    decreases s.len(),
{
    if s.len() == 0 {
        seq![Seq::<char>::empty()]
    } else {
        let prev = split_on(s.drop_last(), sep);
        if s.last() == sep {
            prev.push(Seq::<char>::empty())
        } else {
            prev.update(prev.len() - 1, prev.last().push(s.last()))
        }
    }
}

/// `split_on` always gives at least one field.
pub proof fn lemma_split_on_len(s: Seq<char>, sep: char)
    ensures
        split_on(s, sep).len() >= 1,
    decreases s.len(),
{
    if s.len() > 0 {
        lemma_split_on_len(s.drop_last(), sep);
    }
}

/// The fields of a string separated by a character (what `str::split`
/// gives with a `char` pattern).
pub fn split_text(s: &str, sep: char) -> (r: Vec<String>)
    ensures
        texts(r@) == split_on(s@, sep),
{
    let cs = chars_of(s);
    let mut fields: Vec<String> = Vec::new();
    let mut start: usize = 0;
    let mut i: usize = 0;
    proof {
        assert(cs@.take(0) =~= Seq::<char>::empty());
    }
    while i < cs.len()
        invariant
            cs@ == s@,
            start <= i <= cs.len(),
            split_on(cs@.take(i as int), sep) =~= texts(fields@).push(
                cs@.subrange(start as int, i as int),
            ),
        decreases cs.len() - i,
    {
        proof {
            assert(cs@.take(i + 1).drop_last() =~= cs@.take(i as int));
            assert(cs@.take(i + 1).last() == cs@[i as int]);
        }
        if cs[i] == sep {
            let field = s.substring_char(start, i).to_string();
            fields.push(field);
            proof {
                assert(cs@.subrange(i + 1, i + 1) =~= Seq::<char>::empty());
            }
            start = i + 1;
        } else {
            proof {
                assert(cs@.subrange(start as int, i + 1) =~= cs@.subrange(start as int, i as int).push(
                    cs@[i as int],
                ));
            }
        }
        i = i + 1;
    }
    let field = s.substring_char(start, cs.len()).to_string();
    fields.push(field);
    proof {
        assert(cs@.take(cs@.len() as int) =~= cs@);
    }
    fields
}

/// The parts joined, with `sep` between each two.
pub open spec fn join_texts(parts: Seq<Seq<char>>, sep: Seq<char>) -> Seq<char>
    decreases parts.len(),
{
    if parts.len() == 0 {
        Seq::empty()
    } else if parts.len() == 1 {
        parts[0]
    } else {
        join_texts(parts.drop_last(), sep) + sep + parts.last()
    }
}

/// The strings joined, with `sep` between each two (what `join` gives).
pub fn join_with(parts: &Vec<String>, sep: &str) -> (r: String)
    ensures
        r@ == join_texts(texts(parts@), sep@),
{
    let mut r = String::new();
    let mut i: usize = 0;
    while i < parts.len()
        invariant
            i <= parts.len(),
            r@ == join_texts(texts(parts@).take(i as int), sep@),
        decreases parts.len() - i,
    {
        proof {
            assert(texts(parts@).take(i + 1).drop_last() =~= texts(parts@).take(i as int));
        }
        if i > 0 {
            r.append(sep);
        }
        r.append(parts[i].as_str());
        proof {
            if i == 0 {
                assert(texts(parts@).take(1)[0] == parts@[0]@);
                assert(r@ =~= parts@[0]@);
            }
        }
        i = i + 1;
    }
    proof {
        assert(texts(parts@).take(parts@.len() as int) =~= texts(parts@));
    }
    r
}

/// A line without the carriage return that ends it, if any.
pub open spec fn strip_cr(l: Seq<char>) -> Seq<char> {
    if l.len() > 0 && l.last() == '\r' {
        l.drop_last()
    } else {
        l
    }
}

/// The lines of a text (what `str::lines` gives): split at '\n'; a line
/// ended by "\r\n" loses its '\r'; a final line ending adds no empty line.
pub open spec fn lines_of(s: Seq<char>) -> Seq<Seq<char>> {
    let f = split_on(s, '\n');
    let ended = f.drop_last().map_values(|l: Seq<char>| strip_cr(l));
    if f.last().len() == 0 {
        ended
    } else {
        ended.push(f.last())
    }
}

/// The lines of a text.
pub fn lines(s: &str) -> (r: Vec<String>)
    ensures
        texts(r@) == lines_of(s@),
{
    let fields = split_text(s, '\n');
    proof {
        lemma_split_on_len(s@, '\n');
    }
    let n = fields.len();
    let mut r: Vec<String> = Vec::new();
    for i in 0..n - 1
        invariant
            n == fields@.len(),
            n >= 1,
            texts(fields@) == split_on(s@, '\n'),
            texts(r@) =~= texts(fields@).take(i as int).map_values(|l: Seq<char>| strip_cr(l)),
    {
        let f = fields[i].as_str();
        let len = f.unicode_len();
        let line = if len > 0 && f.get_char(len - 1) == '\r' {
            f.substring_char(0, len - 1).to_string()
        } else {
            f.to_string()
        };
        proof {
            assert(texts(fields@).take(i + 1) =~= texts(fields@).take(i as int).push(fields@[i as int]@));
            if len > 0 && f@[len - 1] == '\r' {
                assert(line@ =~= f@.drop_last());
            }
            assert(line@ == strip_cr(fields@[i as int]@));
        }
        let ghost prev = r@;
        r.push(line);
        proof {
            assert(texts(r@) =~= texts(prev).push(line@));
        }
    }
    let last = fields[n - 1].as_str();
    proof {
        assert(texts(fields@).take(n - 1) =~= texts(fields@).drop_last());
    }
    if !last.is_empty() {
        r.push(last.to_string());
    }
    r
}

/// The order of texts: character by character, a prefix first.
pub open spec fn text_le() -> spec_fn(Seq<char>, Seq<char>) -> bool {
    |a: Seq<char>, b: Seq<char>| !seq_lt(b, a)
}

/// `text_le` is a total order.
pub proof fn lemma_text_le_total()
    ensures
        total_ordering(text_le()),
{
    let ghost le = text_le();
    assert forall|x: Seq<char>| #[trigger] le(x, x) by {
        lemma_lt_irreflexive(x);
    }
    assert forall|x: Seq<char>, y: Seq<char>| #[trigger] le(x, y) && #[trigger] le(y, x) implies x == y by {
        lemma_lt_total(x, y);
    }
    assert forall|x: Seq<char>, y: Seq<char>, z: Seq<char>| #[trigger] le(x, y) && #[trigger] le(y, z) implies le(x, z) by {
        lemma_lt_total(x, y);
        lemma_lt_total(y, z);
        if seq_lt(z, x) {
            if seq_lt(x, y) {
                lemma_lt_transitive(z, x, y);
            }
        }
    }
    assert forall|x: Seq<char>, y: Seq<char>| #[trigger] le(x, y) || #[trigger] le(y, x) by {
        if seq_lt(y, x) {
            lemma_lt_asymmetric(y, x);
        }
    }
}

/// The strings in `text_le` order, each as often as given (what a sort of
/// a `Vec<String>` gives).
pub fn sort_texts(v: &Vec<String>) -> (r: Vec<String>)
    ensures
        sorted_by(texts(r@), text_le()),
        texts(r@).to_multiset() == texts(v@).to_multiset(),
{
    broadcast use vstd::seq_lib::to_multiset_insert;
    let ghost le = text_le();
    let mut r: Vec<String> = Vec::new();
    let mut i: usize = 0;
    proof {
        assert(texts(v@).take(0) =~= Seq::<Seq<char>>::empty());
        assert(texts(r@) =~= texts(v@).take(0));
    }
    while i < v.len()
        invariant
            i <= v.len(),
            le == text_le(),
            sorted_by(texts(r@), le),
            texts(r@).to_multiset() == texts(v@).take(i as int).to_multiset(),
        decreases v.len() - i,
    {
        let x = v[i].clone();
        let mut pos: usize = 0;
        while pos < r.len() && !str_lt(x.as_str(), r[pos].as_str())
            invariant
                pos <= r.len(),
                forall|k: int| 0 <= k < pos ==> !seq_lt(x@, #[trigger] r@[k]@),
            decreases r.len() - pos,
        {
            pos = pos + 1;
        }
        let ghost before = texts(r@);
        r.insert(pos, x);
        proof {
            assert(texts(r@) =~= before.insert(pos as int, x@));
            assert(texts(v@).take(i + 1) =~= texts(v@).take(i as int).push(x@));
            vstd::seq_lib::to_multiset_build(texts(v@).take(i as int), x@);
            vstd::seq_lib::to_multiset_insert(before, pos as int, x@);
            let after = texts(r@);
            assert forall|a: int, b: int| 0 <= a < b < after.len() implies le(#[trigger] after[a], #[trigger] after[b]) by {
                lemma_text_le_total();
                if a < pos && b == pos {
                } else if a == pos && b > pos {
                    assert(seq_lt(x@, before[pos as int]));
                    if b - 1 > pos {
                        assert(le(before[pos as int], before[b - 1]));
                        lemma_lt_asymmetric(x@, before[pos as int]);
                        assert(le(x@, before[pos as int]));
                    } else {
                        lemma_lt_asymmetric(x@, before[pos as int]);
                    }
                } else if a < pos && b > pos {
                    assert(le(before[a], before[b - 1]));
                } else if a < pos && b < pos {
                    assert(le(before[a], before[b]));
                } else {
                    assert(le(before[a - 1], before[b - 1]));
                }
            }
        }
        i = i + 1;
    }
    proof {
        assert(texts(v@).take(v@.len() as int) =~= texts(v@));
    }
    r
}

} // verus!

//! Small exercises on texts and records: palindromes, fragments and tags
//! read grapheme by grapheme, a fruit salad, and a warehouse stock.
use vstd::prelude::*;
use unicode_segmentation::UnicodeSegmentation;
use vstd::utf8::encode_utf8;
use crate::text::{text, joined, same_text, texts};
use crate::payload::{decimal, usize_text};

verus! {

broadcast use vstd::string::group_string_axioms;

/// The extended grapheme clusters of a text, in order, as
/// `unicode-segmentation` splits it.
pub uninterp spec fn extended_graphemes(s: Seq<char>) -> Seq<Seq<char>>;

/// Splits a text into its extended grapheme clusters with
/// `UnicodeSegmentation::graphemes(s, true)`. Trusted: the clusters are the
/// named split of the text; nothing else is said of them.
#[verifier::external_body]
fn graphemes(s: &str) -> (r: Vec<String>)
    ensures
        texts(r@) == extended_graphemes(s@),
{
    UnicodeSegmentation::graphemes(s, true).map(|g| g.to_string()).collect()
}

/// The sequence reads the same backwards.
pub open spec fn palindrome<A>(g: Seq<A>) -> bool {
    forall|i: int| 0 <= i < g.len() ==> #[trigger] g[i] == g[g.len() - 1 - i]
}

/// Whether a sequence of graphemes reads the same backwards.
pub fn palindrome_of_graphemes(gs: &Vec<String>) -> (r: bool)
    ensures
        r == palindrome(texts(gs@)),
{
    let ghost g = texts(gs@);
    let n = gs.len();
    let mut i: usize = 0;
    while i < n
        invariant
            n == gs@.len(),
            g == texts(gs@),
            i <= n,
            forall|k: int| 0 <= k < i ==> #[trigger] g[k] == g[n - 1 - k],
        decreases n - i,
    {
        proof {
            assert(g[i as int] == gs@[i as int]@);
            assert(g[n - 1 - i] == gs@[n - 1 - i]@);
        }
        if !same_text(gs[i].as_str(), gs[n - 1 - i].as_str()) {
            proof {
                assert(g.len() == n as int);
                assert(!(g[i as int] == g[g.len() - 1 - i]));
            }
            return false;
        }
        i = i + 1;
    }
    true
}

/// Whether the text reads the same backwards, grapheme by grapheme.
pub fn is_palindrome(input: &str) -> (r: bool)
    ensures
        r == palindrome(extended_graphemes(input@)),
{
    let gs = graphemes(input);
    palindrome_of_graphemes(&gs)
}

/// What `is_substring` finds, scanning the input graphemes from `i` with
/// `m` fragment graphemes matched so far: it fails once fewer input
/// graphemes are left than the fragment's byte length still asks for; a
/// grapheme equal to the next fragment grapheme is matched; it succeeds
/// once `m` reaches the fragment's byte length `flen`.
pub open spec fn substring_scan(inp: Seq<Seq<char>>, frag: Seq<Seq<char>>, flen: int, i: int, m: int) -> bool
    decreases inp.len() - i,
{
    if i < 0 || i >= inp.len() {
        false
    } else if flen - m > inp.len() - i {
        false
    } else {
        let m2 = if inp[i] == frag[m] { m + 1 } else { m };
        if m2 == flen {
            true
        } else {
            substring_scan(inp, frag, flen, i + 1, m2)
        }
    }
}

/// The scan of `substring_scan` only reads fragment graphemes that exist,
/// and never counts more matches than the fragment's byte length.
pub open spec fn substring_safe(inp: Seq<Seq<char>>, frag: Seq<Seq<char>>, flen: int, i: int, m: int) -> bool
    decreases inp.len() - i,
{
    if i < 0 || i >= inp.len() {
        true
    } else {
        &&& m <= flen
        &&& (flen - m > inp.len() - i || {
            &&& 0 <= m < frag.len()
            &&& {
                let m2 = if inp[i] == frag[m] { m + 1 } else { m };
                m2 == flen || substring_safe(inp, frag, flen, i + 1, m2)
            }
        })
    }
}

/// The scan of `is_substring` on the graphemes of an input and of a
/// fragment whose length is `flen`: `None` where it would read a fragment
/// grapheme past the last one (where `substring_safe` fails), and otherwise
/// whether the fragment's graphemes appear in order in the input, as
/// `substring_scan` finds them.
pub fn substring_of_graphemes(input_graphemes: &Vec<String>, fragment_graphemes: &Vec<String>, flen: usize) -> (r:
    Option<bool>)
    ensures
        r is None <==> !substring_safe(texts(input_graphemes@), texts(fragment_graphemes@), flen as int, 0, 0),
        r matches Some(b) ==> b == substring_scan(
            texts(input_graphemes@),
            texts(fragment_graphemes@),
            flen as int,
            0,
            0,
        ),
{
    let ghost inp = texts(input_graphemes@);
    let ghost frag = texts(fragment_graphemes@);
    let mut match_offset: usize = 0;
    let mut input_index: usize = 0;
    while input_index < input_graphemes.len()
        invariant
            inp == texts(input_graphemes@),
            frag == texts(fragment_graphemes@),
            input_index <= input_graphemes.len(),
            match_offset <= flen,
            substring_scan(inp, frag, flen as int, 0, 0) == substring_scan(
                inp,
                frag,
                flen as int,
                input_index as int,
                match_offset as int,
            ),
            substring_safe(inp, frag, flen as int, 0, 0) == substring_safe(
                inp,
                frag,
                flen as int,
                input_index as int,
                match_offset as int,
            ),
        decreases input_graphemes.len() - input_index,
    {
        proof {
            assert(inp.len() == input_graphemes@.len());
            assert(frag.len() == fragment_graphemes@.len());
            assert(inp[input_index as int] == input_graphemes@[input_index as int]@);
            if (match_offset as int) < frag.len() {
                assert(frag[match_offset as int] == fragment_graphemes@[match_offset as int]@);
            }
        }
        if flen - match_offset > input_graphemes.len() - input_index {
            return Some(false);
        }
        if match_offset >= fragment_graphemes.len() {
            return None;
        }
        let ghost m0 = match_offset as int;
        if same_text(input_graphemes[input_index].as_str(), fragment_graphemes[match_offset].as_str()) {
            match_offset = match_offset + 1;
        }
        if match_offset == flen {
            return Some(true);
        }
        if match_offset > flen {
            proof {
                let i = input_index as int;
                assert(substring_safe(inp, frag, flen as int, i, m0) == substring_safe(inp, frag, flen as int, i + 1, match_offset as int));
                assert(substring_scan(inp, frag, flen as int, i, m0) == substring_scan(inp, frag, flen as int, i + 1, match_offset as int));
                assert(substring_safe(inp, frag, flen as int, i + 1, match_offset as int) == (i + 1 >= inp.len()));
                assert(i + 1 >= inp.len() ==> !substring_scan(inp, frag, flen as int, i + 1, match_offset as int));
            }
            // only an empty fragment gets here: one more grapheme would be read past its end
            if input_index + 1 < input_graphemes.len() {
                return None;
            }
            return Some(false);
        }
        input_index = input_index + 1;
    }
    proof {
        assert(inp.len() == input_graphemes@.len());
    }
    Some(false)
}

/// The scan of `is_substring` on any two texts (see
/// `substring_of_graphemes`), the fragment's length counted in bytes.
fn scan_substring(input: &str, fragment: &str) -> (r: Option<bool>)
    ensures
        r is None <==> !substring_safe(
            extended_graphemes(input@),
            extended_graphemes(fragment@),
            encode_utf8(fragment@).len() as usize as int,
            0,
            0,
        ),
        r matches Some(b) ==> b == substring_scan(
            extended_graphemes(input@),
            extended_graphemes(fragment@),
            encode_utf8(fragment@).len() as usize as int,
            0,
            0,
        ),
{
    let input_graphemes = graphemes(input);
    let fragment_graphemes = graphemes(fragment);
    substring_of_graphemes(&input_graphemes, &fragment_graphemes, fragment.len())
}

/// Whether the fragment's graphemes appear in order in the input, as
/// `substring_scan` finds them; the fragment's length is counted in bytes.
/// The scan reads fragment graphemes by position, so it asks that it never
/// runs past the last one (`substring_check` answers for any two texts).
pub fn is_substring(input: &str, fragment: &str) -> (r: bool)
    requires
        substring_safe(
            extended_graphemes(input@),
            extended_graphemes(fragment@),
            encode_utf8(fragment@).len() as usize as int,
            0,
            0,
        ),
    ensures
        r == substring_scan(
            extended_graphemes(input@),
            extended_graphemes(fragment@),
            encode_utf8(fragment@).len() as usize as int,
            0,
            0,
        ),
{
    match scan_substring(input, fragment) {
        Some(b) => b,
        None => false,
    }
}

/// `is_substring` for any two texts: `None` where its scan would read a
/// fragment grapheme past the last one, its answer otherwise.
pub fn substring_check(input: &str, fragment: &str) -> (r: Option<bool>)
    ensures
        r is None <==> !substring_safe(
            extended_graphemes(input@),
            extended_graphemes(fragment@),
            encode_utf8(fragment@).len() as usize as int,
            0,
            0,
        ),
        r matches Some(b) ==> b == substring_scan(
            extended_graphemes(input@),
            extended_graphemes(fragment@),
            encode_utf8(fragment@).len() as usize as int,
            0,
            0,
        ),
{
    match scan_substring(input, fragment) {
        Some(_) => Some(is_substring(input, fragment)),
        None => None,
    }
}

/// The state of `extract_tags` after some graphemes: whether a tag is
/// open, the text of the open tag, the tags closed, and the error met, if
/// any. A "[" opens a tag (inside one it is an error), a "]" closes it
/// (outside one it is an error) and keeps it if it is not empty; other
/// graphemes inside a tag are its text.
pub open spec fn tags_scan(gs: Seq<Seq<char>>) -> (bool, Seq<char>, Seq<Seq<char>>, Option<Seq<char>>)
    decreases gs.len(),
{
    if gs.len() == 0 {
        (false, Seq::empty(), Seq::empty(), None)
    } else {
        let (open, cur, res, err) = tags_scan(gs.drop_last());
        let g = gs.last();
        if err is Some {
            (open, cur, res, err)
        } else if g == seq![']'] {
            if !open {
                (open, cur, res, Some("Unmatched open tag"@))
            } else {
                (false, Seq::empty(), if cur.len() > 0 { res.push(cur) } else { res }, None)
            }
        } else {
            let cur2 = if open { cur + g } else { cur };
            if g == seq!['['] {
                if open {
                    (open, cur2, res, Some("Tags within tags are not supported"@))
                } else {
                    (true, cur2, res, None)
                }
            } else {
                (open, cur2, res, None)
            }
        }
    }
}

/// What `extract_tags` gives for a sequence of graphemes.
pub open spec fn tags_of(gs: Seq<Seq<char>>) -> Result<Seq<Seq<char>>, Seq<char>> {
    let (open, _, res, err) = tags_scan(gs);
    match err {
        Some(e) => Err(e),
        None => if open {
            Err("Unmatched close tag"@)
        } else {
            Ok(res)
        },
    }
}

/// The view of a list of tags or an error.
pub open spec fn tags_view(r: Result<Vec<String>, String>) -> Result<Seq<Seq<char>>, Seq<char>> {
    match r {
        Ok(v) => Ok(texts(v@)),
        Err(e) => Err(e@),
    }
}

/// The texts between "[" and "]" in a sequence of graphemes, in order,
/// without the empty ones; a "]" with no "[" before it, a "[" inside a tag,
/// and a tag left open are errors.
pub fn tags_of_graphemes(input_graphemes: &Vec<String>) -> (r: Result<Vec<String>, String>)
    ensures
        tags_view(r) == tags_of(texts(input_graphemes@)),
{
    let ghost gs = texts(input_graphemes@);
    let mut res: Vec<String> = Vec::new();
    let mut current_tag = String::new();
    let mut open_tag = false;
    let mut i: usize = 0;
    proof {
        reveal_strlit("]");
        reveal_strlit("[");
        assert(gs.take(0) =~= Seq::<Seq<char>>::empty());
        assert(texts(res@) =~= Seq::<Seq<char>>::empty());
    }
    while i < input_graphemes.len()
        invariant
            gs == texts(input_graphemes@),
            i <= input_graphemes.len(),
            tags_scan(gs.take(i as int)) == (open_tag, current_tag@, texts(res@), None::<Seq<char>>),
        decreases input_graphemes.len() - i,
    {
        let grapheme = input_graphemes[i].as_str();
        proof {
            assert(gs.take(i + 1).drop_last() =~= gs.take(i as int));
            assert(gs.take(i + 1).last() == grapheme@);
            reveal_strlit("]");
            reveal_strlit("[");
            assert("]"@ =~= seq![']']);
            assert("["@ =~= seq!['[']);
        }
        if same_text(grapheme, "]") {
            if !open_tag {
                proof {
                    lemma_tags_error_stays(gs, i as int + 1);
                    assert(tags_scan(gs).3 == Some("Unmatched open tag"@));
                    assert(tags_of(gs) == Err::<Seq<Seq<char>>, Seq<char>>("Unmatched open tag"@));
                }
                return Err(text("Unmatched open tag"));
            }
            if !current_tag.as_str().is_empty() {
                let ghost prev = res@;
                res.push(current_tag);
                proof {
                    assert(texts(res@) =~= texts(prev).push(res@.last()@));
                }
                current_tag = String::new();
            } else {
                current_tag = String::new();
            }
            open_tag = false;
            i = i + 1;
            continue;
        }
        if open_tag {
            current_tag = joined(current_tag.as_str(), grapheme);
        }
        if same_text(grapheme, "[") {
            if open_tag {
                proof {
                    lemma_tags_error_stays(gs, i as int + 1);
                    assert(tags_scan(gs).3 == Some("Tags within tags are not supported"@));
                    assert(tags_of(gs) == Err::<Seq<Seq<char>>, Seq<char>>(
                        "Tags within tags are not supported"@,
                    ));
                }
                return Err(text("Tags within tags are not supported"));
            } else {
                open_tag = true;
            }
        }
        i = i + 1;
    }
    proof {
        assert(gs.take(input_graphemes@.len() as int) =~= gs);
    }
    if open_tag {
        Err(text("Unmatched close tag"))
    } else {
        Ok(res)
    }
}

/// The texts between "[" and "]" in the input, in order, without the
/// empty ones, read grapheme by grapheme (see `tags_of_graphemes`).
pub fn extract_tags(input: &str) -> (r: Result<Vec<String>, String>)
    ensures
        tags_view(r) == tags_of(extended_graphemes(input@)),
{
    let input_graphemes = graphemes(input);
    tags_of_graphemes(&input_graphemes)
}

/// A tag is exactly what stands between its brackets: for graphemes `ts`
/// that hold no bracket and make a nonempty text, the tags of "[", `ts`, "]"
/// are that one text, every grapheme of `ts` kept, in order.
pub proof fn lemma_single_tag(ts: Seq<Seq<char>>)
    requires
        forall|k: int| 0 <= k < ts.len() ==> #[trigger] ts[k] != seq!['['] && ts[k] != seq![']'],
        ts.flatten().len() > 0,
    ensures
        tags_of(seq![seq!['[']] + ts + seq![seq![']']]) == Ok::<Seq<Seq<char>>, Seq<char>>(seq![ts.flatten()]),
{
    let open = seq![seq!['[']];
    lemma_open_tag_collects(ts, ts.len() as int);
    assert(ts.take(ts.len() as int) =~= ts);
    ts.lemma_flatten_and_flatten_alt_are_equivalent();
    let all = open + ts + seq![seq![']']];
    assert(all.drop_last() =~= open + ts);
    assert(all.last() == seq![']']);
    assert(tags_scan(all) == (false, Seq::<char>::empty(), seq![ts.flatten()], None::<Seq<char>>));
}

/// The errors of tag extraction, around graphemes `ts` that hold no
/// bracket: with no bracket there are no tags; a "]" with no "[" before it
/// is an unmatched open tag; a "[" never closed is an unmatched close tag;
/// a "[" inside an open tag is a tag within a tag.
pub proof fn lemma_tag_errors(ts: Seq<Seq<char>>)
    requires
        forall|k: int| 0 <= k < ts.len() ==> #[trigger] ts[k] != seq!['['] && ts[k] != seq![']'],
    ensures
        tags_of(ts) == Ok::<Seq<Seq<char>>, Seq<char>>(Seq::empty()),
        tags_of(ts.push(seq![']'])) == Err::<Seq<Seq<char>>, Seq<char>>("Unmatched open tag"@),
        tags_of(seq![seq!['[']] + ts) == Err::<Seq<Seq<char>>, Seq<char>>("Unmatched close tag"@),
        tags_of((seq![seq!['[']] + ts).push(seq!['['])) == Err::<Seq<Seq<char>>, Seq<char>>(
            "Tags within tags are not supported"@,
        ),
{
    lemma_no_tag_collects(ts, ts.len() as int);
    assert(ts.take(ts.len() as int) =~= ts);
    assert(ts.push(seq![']']).drop_last() =~= ts);
    lemma_open_tag_collects(ts, ts.len() as int);
    let o = seq![seq!['[']] + ts;
    assert(o.push(seq!['[']).drop_last() =~= o);
    assert(o.push(seq!['[']).last() == seq!['[']);
    assert(seq!['['] != seq![']']) by {
        assert(seq!['['][0] != seq![']'][0]);
    }
}

/// Graphemes that hold no bracket leave no tag open, collect none, and meet
/// no error.
proof fn lemma_no_tag_collects(ts: Seq<Seq<char>>, k: int)
    requires
        0 <= k <= ts.len(),
        forall|i: int| 0 <= i < ts.len() ==> #[trigger] ts[i] != seq!['['] && ts[i] != seq![']'],
    ensures
        tags_scan(ts.take(k)) == (false, Seq::<char>::empty(), Seq::<Seq<char>>::empty(), None::<Seq<char>>),
    decreases k,
{
    if k == 0 {
        assert(ts.take(0) =~= Seq::<Seq<char>>::empty());
    } else {
        lemma_no_tag_collects(ts, k - 1);
        assert(ts.take(k).drop_last() =~= ts.take(k - 1));
        assert(ts.take(k).last() == ts[k - 1]);
        assert(ts[k - 1] != seq![']'] && ts[k - 1] != seq!['[']);
    }
}

/// After a "[" and `k` graphemes that hold no bracket, the tag is open and
/// holds those graphemes, joined.
proof fn lemma_open_tag_collects(ts: Seq<Seq<char>>, k: int)
    requires
        0 <= k <= ts.len(),
        forall|i: int| 0 <= i < ts.len() ==> #[trigger] ts[i] != seq!['['] && ts[i] != seq![']'],
    ensures
        tags_scan(seq![seq!['[']] + ts.take(k)) == (true, ts.take(k).flatten_alt(), Seq::<Seq<char>>::empty(), None::<
            Seq<char>,
        >),
    decreases k,
{
    let open = seq![seq!['[']];
    if k == 0 {
        assert(open + ts.take(0) =~= open);
        assert(open.drop_last() =~= Seq::<Seq<char>>::empty());
        assert(open.last() == seq!['[']);
        assert(seq!['['] != seq![']']) by {
            assert(seq!['['][0] != seq![']'][0]);
        }
        assert(tags_scan(Seq::<Seq<char>>::empty()) == (false, Seq::<char>::empty(), Seq::<Seq<char>>::empty(), None::<
            Seq<char>,
        >));
        assert(ts.take(0).flatten_alt() =~= Seq::<char>::empty());
    } else {
        lemma_open_tag_collects(ts, k - 1);
        let cur = open + ts.take(k);
        assert(cur.drop_last() =~= open + ts.take(k - 1));
        assert(cur.last() == ts[k - 1]);
        assert(ts.take(k).drop_last() =~= ts.take(k - 1));
        assert(ts.take(k).last() == ts[k - 1]);
        assert(ts[k - 1] != seq![']'] && ts[k - 1] != seq!['[']);
        assert(ts.take(k).flatten_alt() == ts.take(k - 1).flatten_alt() + ts[k - 1]);
    }
}

/// Once the scan meets an error, it keeps it to the end.
proof fn lemma_tags_error_stays(gs: Seq<Seq<char>>, k: int)
    requires
        0 <= k <= gs.len(),
        tags_scan(gs.take(k)).3 is Some,
    ensures
        tags_scan(gs).3 == tags_scan(gs.take(k)).3,
    decreases gs.len() - k,
{
    if k == gs.len() {
        assert(gs.take(k) =~= gs);
    } else {
        assert(gs.take(k + 1).drop_last() =~= gs.take(k));
        lemma_tags_error_stays(gs, k + 1);
    }
}

/// The text that `{:?}` gives for a list of strings.
pub uninterp spec fn debug_list(items: Seq<Seq<char>>) -> Seq<char>;

/// Formats a list of strings with `{:?}` (std's `Debug` for
/// `Vec<String>`). Trusted: the text is the named format of the strings.
#[verifier::external_body]
fn debug_of(items: &Vec<String>) -> (r: String)
    ensures
        r@ == debug_list(texts(items@)),
{
    format!("{:?}", items)
}

pub struct FruitSalad {
    fruits: Vec<String>,
    servings: u32,
}

impl FruitSalad {
    /// The fruits, in order.
    pub closed spec fn fruits_view(&self) -> Seq<Seq<char>> {
        texts(self.fruits@)
    }

    /// The servings left.
    pub closed spec fn servings_view(&self) -> u32 {
        self.servings
    }

    pub fn new(fruits: Vec<String>, servings: u32) -> (r: Self)
        ensures
            r.fruits_view() == texts(fruits@),
            r.servings_view() == servings,
    {
        FruitSalad { fruits: fruits, servings: servings }
    }

    /// "N servings of fruit salad with" and the list of fruits.
    pub fn to_string(&self) -> (r: String)
        ensures
            r@ == decimal(self.servings_view() as nat) + " servings of fruit salad with "@ + debug_list(
                self.fruits_view(),
            ),
    {
        let n = usize_text(self.servings as usize);
        let s = joined(n.as_str(), " servings of fruit salad with ");
        let list = debug_of(&self.fruits);
        joined(s.as_str(), list.as_str())
    }

    /// Adds a fruit at the end.
    pub fn add(&mut self, new_fruit: String)
        ensures
            final(self).fruits_view() == old(self).fruits_view().push(new_fruit@),
            final(self).servings_view() == old(self).servings_view(),
    {
        let ghost prev = self.fruits@;
        self.fruits.push(new_fruit);
        assert(texts(self.fruits@) =~= texts(prev).push(new_fruit@));
    }

    /// Serves one serving: "enjoy" while some are left, "sorry" otherwise.
    pub fn serve(&mut self) -> (r: String)
        ensures
            final(self).fruits_view() == old(self).fruits_view(),
            old(self).servings_view() > 0 ==> r@ == "enjoy"@ && final(self).servings_view()
                == old(self).servings_view() - 1,
            old(self).servings_view() == 0 ==> r@ == "sorry"@ && final(self).servings_view() == 0,
    {
        if self.servings > 0 {
            self.servings = self.servings - 1;
            text("enjoy")
        } else {
            text("sorry")
        }
    }
}

/// Whether a transaction adds to or takes from the stock.
#[derive(PartialEq, Eq, Structural, Clone, Copy, Debug)]
pub enum TransactionType {
    Receive,
    Ship,
}

pub struct TransactionOperation {
    tx_type: TransactionType,
    item: String,
    quantity: u32,
}

impl TransactionOperation {
    /// The kind of transaction.
    pub closed spec fn kind(&self) -> TransactionType {
        self.tx_type
    }

    /// The item.
    pub closed spec fn item_view(&self) -> Seq<char> {
        self.item@
    }

    /// The quantity.
    pub closed spec fn quantity_view(&self) -> u32 {
        self.quantity
    }

    /// A transaction: "ship" ships, anything else receives.
    pub fn new(transaction_type: String, item: String, quantity: u32) -> (r: Self)
        ensures
            r.kind() == (if transaction_type@ == "ship"@ {
                TransactionType::Ship
            } else {
                TransactionType::Receive
            }),
            r.item_view() == item@,
            r.quantity_view() == quantity,
    {
        let mut tx_type: TransactionType = TransactionType::Receive;
        if same_text(transaction_type.as_str(), "ship") {
            tx_type = TransactionType::Ship;
        }
        TransactionOperation { tx_type: tx_type, item: item, quantity: quantity }
    }
}

/// The stock of an item: zero for an item never seen.
pub open spec fn level(stock: Map<Seq<char>, u32>, item: Seq<char>) -> u32 {
    if stock.contains_key(item) {
        stock[item]
    } else {
        0
    }
}

/// The stock after one transaction: receiving adds; shipping takes away,
/// down to zero at most.
pub open spec fn apply_tx(stock: Map<Seq<char>, u32>, kind: TransactionType, item: Seq<char>, quantity: u32) -> Map<
    Seq<char>,
    u32,
> {
    let cur = level(stock, item);
    stock.insert(
        item,
        match kind {
            TransactionType::Receive => (cur + quantity) as u32,
            TransactionType::Ship => if cur < quantity {
                0
            } else {
                (cur - quantity) as u32
            },
        },
    )
}

/// What one transaction does to the stock: receiving `q` of an item adds
/// `q` to its level; shipping `q` takes `q` away when the level covers it
/// and empties it otherwise, so it never leaves more than the level less
/// `q`; every other item keeps its level.
pub proof fn lemma_transaction_levels(stock: Map<Seq<char>, u32>, kind: TransactionType, item: Seq<char>, q: u32, other: Seq<char>)
    ensures
        kind == TransactionType::Receive && level(stock, item) + q <= u32::MAX ==> level(
            apply_tx(stock, kind, item, q),
            item,
        ) == level(stock, item) + q,
        kind == TransactionType::Ship && q <= level(stock, item) ==> level(apply_tx(stock, kind, item, q), item)
            == level(stock, item) - q,
        kind == TransactionType::Ship && q > level(stock, item) ==> level(apply_tx(stock, kind, item, q), item)
            == 0,
        kind == TransactionType::Ship ==> level(apply_tx(stock, kind, item, q), item) <= level(stock, item),
        other != item ==> level(apply_tx(stock, kind, item, q), other) == level(stock, other),
{
}

/// The stock after the transactions, in order.
pub open spec fn apply_all(stock: Map<Seq<char>, u32>, txs: Seq<TransactionOperation>) -> Map<Seq<char>, u32>
    decreases txs.len(),
{
    if txs.len() == 0 {
        stock
    } else {
        let t = txs.last();
        apply_tx(apply_all(stock, txs.drop_last()), t.kind(), t.item_view(), t.quantity_view())
    }
}

/// No receipt takes a stock past `u32::MAX`.
pub open spec fn process_ok(stock: Map<Seq<char>, u32>, txs: Seq<TransactionOperation>) -> bool
    decreases txs.len(),
{
    if txs.len() == 0 {
        true
    } else {
        let t = txs.last();
        &&& process_ok(stock, txs.drop_last())
        &&& t.kind() == TransactionType::Receive ==> level(apply_all(stock, txs.drop_last()), t.item_view())
            + t.quantity_view() <= u32::MAX
    }
}

/// An item and its stock, each item once.
pub type StockEntry = (String, u32);

/// The stock that a list of (item, stock) pairs records.
pub open spec fn entries_map(items: Seq<StockEntry>) -> Map<Seq<char>, u32>
    decreases items.len(),
{
    if items.len() == 0 {
        Map::empty()
    } else {
        entries_map(items.drop_last()).insert(items.last().0@, items.last().1)
    }
}

/// No item is listed twice.
pub open spec fn unique_items(items: Seq<StockEntry>) -> bool {
    forall|i: int, j: int| 0 <= i < j < items.len() ==> (#[trigger] items[i]).0@ != (#[trigger] items[j]).0@
}

/// Each listed item is in the map, with its stock; no other item is.
proof fn lemma_entries_map(items: Seq<StockEntry>)
    requires
        unique_items(items),
    ensures
        forall|i: int| 0 <= i < items.len() ==> entries_map(items).contains_key(#[trigger] items[i].0@)
            && entries_map(items)[items[i].0@] == items[i].1,
        forall|k: Seq<char>| entries_map(items).contains_key(k) ==> exists|i: int| 0 <= i < items.len()
            && #[trigger] items[i].0@ == k,
    decreases items.len(),
{
    if items.len() > 0 {
        let d = items.drop_last();
        assert forall|i: int, j: int| 0 <= i < j < d.len() implies (#[trigger] d[i]).0@ != (#[trigger] d[j]).0@ by {
            assert(d[i] == items[i] && d[j] == items[j]);
        }
        lemma_entries_map(d);
        assert forall|i: int| 0 <= i < items.len() implies entries_map(items).contains_key(#[trigger] items[i].0@)
            && entries_map(items)[items[i].0@] == items[i].1 by {
            if i < items.len() - 1 {
                assert(items[i] == d[i]);
            }
        }
        assert forall|k: Seq<char>| entries_map(items).contains_key(k) implies exists|i: int| 0 <= i < items.len()
            && #[trigger] items[i].0@ == k by {
            if k != items.last().0@ {
                assert(entries_map(d).contains_key(k));
                let i = choose|i: int| 0 <= i < d.len() && #[trigger] d[i].0@ == k;
                assert(items[i] == d[i]);
            } else {
                assert(items[items.len() - 1].0@ == k);
            }
        }
    }
}

/// Changing the stock of a listed item changes it in the map.
proof fn lemma_entries_map_update(items: Seq<StockEntry>, j: int, e: StockEntry)
    requires
        unique_items(items),
        0 <= j < items.len(),
        e.0@ == items[j].0@,
    ensures
        entries_map(items.update(j, e)) == entries_map(items).insert(e.0@, e.1),
        unique_items(items.update(j, e)),
    decreases items.len(),
{
    let u = items.update(j, e);
    assert forall|a: int, b: int| 0 <= a < b < u.len() implies (#[trigger] u[a]).0@ != (#[trigger] u[b]).0@ by {
        assert(u[a].0@ == items[a].0@);
        assert(u[b].0@ == items[b].0@);
    }
    lemma_entries_map(items);
    lemma_entries_map(u);
    assert(entries_map(u) =~= entries_map(items).insert(e.0@, e.1)) by {
        assert forall|k: Seq<char>| #[trigger] entries_map(u).contains_key(k) <==> entries_map(items).insert(
            e.0@,
            e.1,
        ).contains_key(k) by {
            if entries_map(items).contains_key(k) {
                let i = choose|i: int| 0 <= i < items.len() && #[trigger] items[i].0@ == k;
                assert(u[i].0@ == k);
            }
            if entries_map(u).contains_key(k) {
                let i = choose|i: int| 0 <= i < u.len() && #[trigger] u[i].0@ == k;
                assert(items[i].0@ == k);
            }
            assert(u[j].0@ == e.0@);
        }
        assert forall|k: Seq<char>| #[trigger] entries_map(u).contains_key(k) implies entries_map(u)[k]
            == entries_map(items).insert(e.0@, e.1)[k] by {
            let i = choose|i: int| 0 <= i < u.len() && #[trigger] u[i].0@ == k;
            if i == j {
                assert(u[j] == e);
            } else {
                assert(u[i] == items[i]);
                assert(items[i].0@ != items[j].0@);
            }
        }
    }
}

pub struct Warehouse {
    items: Vec<StockEntry>,
}

impl Warehouse {
    /// The stock of each item seen.
    pub closed spec fn stock(&self) -> Map<Seq<char>, u32> {
        entries_map(self.items@)
    }

    /// The list of items holds each item once.
    pub closed spec fn wf(&self) -> bool {
        unique_items(self.items@)
    }

    /// The position of an item in the list, if listed.
    fn find(&self, item: &String) -> (r: Option<usize>)
        requires
            self.wf(),
        ensures
            r matches Some(j) ==> j < self.items@.len() && self.items@[j as int].0@ == item@,
            r is None ==> !self.stock().contains_key(item@),
    {
        proof {
            lemma_entries_map(self.items@);
        }
        let mut j: usize = 0;
        while j < self.items.len()
            invariant
                j <= self.items@.len(),
                forall|k: int| 0 <= k < j ==> (#[trigger] self.items@[k]).0@ != item@,
            decreases self.items.len() - j,
        {
            if self.items[j].0 == *item {
                return Some(j);
            }
            j = j + 1;
        }
        proof {
            if self.stock().contains_key(item@) {
                let i = choose|i: int| 0 <= i < self.items@.len() && #[trigger] self.items@[i].0@ == item@;
            }
        }
        None
    }

    /// Applies the transactions in order, and empties the list of them.
    pub fn process(&mut self, transactions: &mut Vec<TransactionOperation>)
        requires
            old(self).wf(),
            process_ok(old(self).stock(), old(transactions)@),
        ensures
            final(self).wf(),
            final(self).stock() == apply_all(old(self).stock(), old(transactions)@),
            final(transactions)@ == Seq::<TransactionOperation>::empty(),
    {
        let ghost start = self.stock();
        let ghost txs = transactions@;
        let mut t: usize = 0;
        proof {
            assert(txs.take(0) =~= Seq::<TransactionOperation>::empty());
        }
        while t < transactions.len()
            invariant
                txs == transactions@,
                t <= txs.len(),
                self.wf(),
                process_ok(start, txs),
                self.stock() == apply_all(start, txs.take(t as int)),
            decreases txs.len() - t,
        {
            proof {
                assert(txs.take(t + 1).drop_last() =~= txs.take(t as int));
                assert(txs.take(t + 1).last() == txs[t as int]);
                lemma_process_ok_prefix(start, txs, t as int + 1);
                lemma_entries_map(self.items@);
            }
            let cur_tx = &transactions[t];
            let ghost before = self.stock();
            match self.find(&cur_tx.item) {
                Some(j) => {
                    let count = self.items[j].1;
                    proof {
                        assert(before[cur_tx.item@] == count);
                    }
                    let new_count = match cur_tx.tx_type {
                        TransactionType::Receive => count + cur_tx.quantity,
                        TransactionType::Ship => if count < cur_tx.quantity {
                            0
                        } else {
                            count - cur_tx.quantity
                        },
                    };
                    let key = self.items[j].0.clone();
                    proof {
                        lemma_entries_map_update(self.items@, j as int, (key, new_count));
                    }
                    self.items.set(j, (key, new_count));
                },
                None => {
                    let new_count = match cur_tx.tx_type {
                        TransactionType::Receive => cur_tx.quantity,
                        TransactionType::Ship => 0,
                    };
                    let ghost prev = self.items@;
                    self.items.push((cur_tx.item.clone(), new_count));
                    proof {
                        assert(self.items@.drop_last() =~= prev);
                        assert forall|a: int, b: int| 0 <= a < b < self.items@.len() implies (
                        #[trigger] self.items@[a]).0@ != (#[trigger] self.items@[b]).0@ by {
                            if b == self.items@.len() - 1 {
                                assert(self.items@[a] == prev[a]);
                                assert(entries_map(prev).contains_key(prev[a].0@));
                            } else {
                                assert(self.items@[a] == prev[a] && self.items@[b] == prev[b]);
                            }
                        }
                    }
                },
            }
            t = t + 1;
        }
        proof {
            assert(txs.take(txs.len() as int) =~= txs);
        }
        transactions.clear();
    }

    /// The stock of an item: zero for an item never seen.
    pub fn lookup(&self, item: String) -> (r: u32)
        requires
            self.wf(),
        ensures
            r == level(self.stock(), item@),
    {
        proof {
            lemma_entries_map(self.items@);
        }
        match self.find(&item) {
            Some(j) => self.items[j].1,
            None => 0u32,
        }
    }

    /// An empty warehouse.
    pub fn new() -> (r: Self)
        ensures
            r.wf(),
            r.stock() == Map::<Seq<char>, u32>::empty(),
    {
        Warehouse { items: Vec::new() }
    }
}

/// Every prefix of transactions that keep within `u32` keeps within it.
proof fn lemma_process_ok_prefix(stock: Map<Seq<char>, u32>, txs: Seq<TransactionOperation>, k: int)
    requires
        process_ok(stock, txs),
        0 <= k <= txs.len(),
    ensures
        process_ok(stock, txs.take(k)),
    decreases txs.len(),
{
    if k == txs.len() {
        assert(txs.take(k) =~= txs);
    } else {
        assert(txs.drop_last().take(k) =~= txs.take(k));
        lemma_process_ok_prefix(stock, txs.drop_last(), k);
    }
}

} // verus!

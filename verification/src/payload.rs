//! Chunk payloads of the form "checksum&offset", and decimal offsets.
use vstd::prelude::*;
use crate::lex::chars_of;
use vstd::string::StringExecFns;
use crate::text::text;

verus! {

/// The position of the first '&' (the length when there is none).
pub open spec fn first_amp(p: Seq<char>) -> int
    decreases p.len(),
{
    if p.len() == 0 {
        0
    } else if p[0] == '&' {
        0
    } else {
        1 + first_amp(p.drop_first())
    }
}

/// Splitting the payload at '&' gives exactly two fields.
pub open spec fn two_fields(p: Seq<char>) -> bool {
    p.contains('&') && !p.skip(first_amp(p) + 1).contains('&')
}

/// The first field: the checksum.
pub open spec fn checksum_of(p: Seq<char>) -> Seq<char> {
    p.take(first_amp(p))
}

/// The second field: the offset, in decimal.
pub open spec fn offset_text(p: Seq<char>) -> Seq<char> {
    p.skip(first_amp(p) + 1)
}

/// A decimal digit.
pub open spec fn is_digit(c: char) -> bool {
    '0' <= c && c <= '9'
}

/// The value of a sequence of decimal digits.
pub open spec fn digits_value(s: Seq<char>) -> nat
    decreases s.len(),
{
    if s.len() == 0 {
        0
    } else {
        digits_value(s.drop_last()) * 10 + (s.last() as nat - '0' as nat) as nat
    }
}

/// The digits of an unsigned number: without one leading '+'.
pub open spec fn unsigned_digits(s: Seq<char>) -> Seq<char> {
    if s.len() > 0 && s[0] == '+' {
        s.drop_first()
    } else {
        s
    }
}

/// What `str::parse::<usize>` gives: an optional '+', then at least one
/// decimal digit, and a value that fits in `usize`.
pub open spec fn parse_usize(s: Seq<char>) -> Option<usize> {
    let d = unsigned_digits(s);
    if d.len() > 0 && (forall|i: int| 0 <= i < d.len() ==> is_digit(#[trigger] d[i]))
        && digits_value(d) <= usize::MAX {
        Some(digits_value(d) as usize)
    } else {
        None
    }
}

/// The offset of a payload whose second field parses.
pub open spec fn offset_of(p: Seq<char>) -> usize {
    parse_usize(offset_text(p)).unwrap()
}

proof fn lemma_first_amp(p: Seq<char>)
    ensures
        0 <= first_amp(p) <= p.len(),
        forall|i: int| 0 <= i < first_amp(p) ==> p[i] != '&',
        first_amp(p) < p.len() ==> p[first_amp(p)] == '&',
        p.contains('&') ==> first_amp(p) < p.len(),
    decreases p.len(),
{
    if p.len() > 0 && p[0] != '&' {
        lemma_first_amp(p.drop_first());
        assert forall|i: int| 0 <= i < first_amp(p) implies p[i] != '&' by {
            if i > 0 {
                assert(p[i] == p.drop_first()[i - 1]);
            }
        }
        if p.contains('&') {
            let w = choose|i: int| 0 <= i < p.len() && p[i] == '&';
            assert(p.drop_first()[w - 1] == '&');
        }
    }
}

/// Parses a decimal offset as `str::parse::<usize>` does.
pub fn parse_offset(s: &str) -> (r: Option<usize>)
    ensures
        r == parse_usize(s@),
{
    let cs = chars_of(s);
    let start: usize = if cs.len() > 0 && cs[0] == '+' { 1 } else { 0 };
    let ghost d = unsigned_digits(s@);
    assert(d =~= cs@.skip(start as int));
    if start >= cs.len() {
        return None;
    }
    let mut value: usize = 0;
    let mut overflow = false;
    let mut i: usize = start;
    while i < cs.len()
        invariant
            start <= i <= cs.len(),
            d =~= cs@.skip(start as int),
            d == unsigned_digits(s@),
            cs@ == s@,
            forall|j: int| start <= j < i ==> is_digit(#[trigger] cs@[j]),
            !overflow ==> value == digits_value(cs@.subrange(start as int, i as int)),
            overflow ==> digits_value(cs@.subrange(start as int, i as int)) > usize::MAX,
        decreases cs.len() - i,
    {
        let c = cs[i];
        if !('0' <= c && c <= '9') {
            proof {
                assert(d[i - start] == c);
                assert(!is_digit(d[i - start]));
            }
            return None;
        }
        let digit: usize = ((c as u32) - ('0' as u32)) as usize;
        proof {
            let sub = cs@.subrange(start as int, i + 1);
            assert(sub.drop_last() =~= cs@.subrange(start as int, i as int));
            assert(sub.last() == c);
        }
        if !overflow {
            match value.checked_mul(10) {
                Some(v10) => match v10.checked_add(digit) {
                    Some(v) => {
                        value = v;
                    },
                    None => {
                        overflow = true;
                    },
                },
                None => {
                    overflow = true;
                    proof {
                        assert(digits_value(cs@.subrange(start as int, i + 1)) >= value * 10) by (nonlinear_arith)
                            requires
                                digits_value(cs@.subrange(start as int, i + 1)) == value * 10 + digit,
                                digit >= 0,
                        ;
                    }
                },
            }
        } else {
            proof {
                let sub = cs@.subrange(start as int, i + 1);
                assert(digits_value(sub) >= digits_value(sub.drop_last())) by (nonlinear_arith)
                    requires
                        digits_value(sub) == digits_value(sub.drop_last()) * 10 + digit,
                        digit >= 0,
                ;
            }
        }
        i = i + 1;
    }
    assert(cs@.subrange(start as int, cs.len() as int) =~= d);
    if overflow {
        None
    } else {
        Some(value)
    }
}

/// Splits a payload into its checksum and its offset text.
pub fn split_payload(p: &String) -> (r: (String, String))
    requires
        two_fields(p@),
    ensures
        r.0@ == checksum_of(p@),
        r.1@ == offset_text(p@),
{
    proof {
        lemma_first_amp(p@);
    }
    let cs = chars_of(p.as_str());
    let mut i: usize = 0;
    while i < cs.len() && cs[i] != '&'
        invariant
            i <= cs.len(),
            cs@ == p@,
            i <= first_amp(p@),
            0 <= first_amp(p@) <= p@.len(),
            forall|j: int| 0 <= j < first_amp(p@) ==> p@[j] != '&',
            first_amp(p@) < p@.len() ==> p@[first_amp(p@)] == '&',
        decreases cs.len() - i,
    {
        i = i + 1;
    }
    assert(i == first_amp(p@));
    let unicode_len = cs.len();
    let first = p.as_str().substring_char(0, i);
    let second = p.as_str().substring_char(i + 1, unicode_len);
    assert(first@ =~= checksum_of(p@));
    assert(second@ =~= offset_text(p@));
    (text(first), text(second))
}

/// Whether a payload splits into exactly two fields.
pub fn has_two_fields(p: &String) -> (r: bool)
    ensures
        r == two_fields(p@),
{
    proof {
        lemma_first_amp(p@);
    }
    let cs = chars_of(p.as_str());
    let mut i: usize = 0;
    while i < cs.len() && cs[i] != '&'
        invariant
            i <= cs.len(),
            cs@ == p@,
            i <= first_amp(p@),
            0 <= first_amp(p@) <= p@.len(),
            forall|j: int| 0 <= j < first_amp(p@) ==> p@[j] != '&',
            first_amp(p@) < p@.len() ==> p@[first_amp(p@)] == '&',
        decreases cs.len() - i,
    {
        i = i + 1;
    }
    assert(i == first_amp(p@));
    if i == cs.len() {
        proof {
            assert forall|j: int| 0 <= j < p@.len() implies p@[j] != '&' by {}
        }
        return false;
    }
    let mut j: usize = i + 1;
    while j < cs.len()
        invariant
            i < j <= cs.len(),
            cs@ == p@,
            i == first_amp(p@),
            forall|k: int| i < k < j ==> cs@[k] != '&',
        decreases cs.len() - j,
    {
        if cs[j] == '&' {
            proof {
                assert(p@.skip(i + 1)[j - i - 1] == '&');
            }
            return false;
        }
        j = j + 1;
    }
    proof {
        assert(p@[i as int] == '&');
        let rest = p@.skip(i + 1);
        assert forall|k: int| 0 <= k < rest.len() implies #[trigger] rest[k] != '&' by {
            assert(rest[k] == cs@[i + 1 + k]);
        }
    }
    true
}

/// The decimal digit of a number below ten.
pub open spec fn digit_char(d: nat) -> char {
    if d == 0 {
        '0'
    } else if d == 1 {
        '1'
    } else if d == 2 {
        '2'
    } else if d == 3 {
        '3'
    } else if d == 4 {
        '4'
    } else if d == 5 {
        '5'
    } else if d == 6 {
        '6'
    } else if d == 7 {
        '7'
    } else if d == 8 {
        '8'
    } else {
        '9'
    }
}

/// The decimal text of a number, without leading zeros (what `to_string`
/// or `format!("{}")` gives for an unsigned integer).
pub open spec fn decimal(n: nat) -> Seq<char>
    decreases n,
{
    if n < 10 {
        seq![digit_char(n)]
    } else {
        decimal(n / 10).push(digit_char(n % 10))
    }
}

/// The text of one decimal digit.
fn digit_str(d: usize) -> (r: &'static str)
    requires
        d < 10,
    ensures
        r@ == seq![digit_char(d as nat)],
{
    proof {
        reveal_strlit("0");
        reveal_strlit("1");
        reveal_strlit("2");
        reveal_strlit("3");
        reveal_strlit("4");
        reveal_strlit("5");
        reveal_strlit("6");
        reveal_strlit("7");
        reveal_strlit("8");
        reveal_strlit("9");
    }
    if d == 0 {
        "0"
    } else if d == 1 {
        "1"
    } else if d == 2 {
        "2"
    } else if d == 3 {
        "3"
    } else if d == 4 {
        "4"
    } else if d == 5 {
        "5"
    } else if d == 6 {
        "6"
    } else if d == 7 {
        "7"
    } else if d == 8 {
        "8"
    } else {
        "9"
    }
}

/// The decimal text of a number.
pub fn usize_text(n: usize) -> (r: String)
    ensures
        r@ == decimal(n as nat),
    decreases n,
{
    if n < 10 {
        text(digit_str(n))
    } else {
        let mut s = usize_text(n / 10);
        s.append(digit_str(n % 10));
        s
    }
}

/// Parsing the decimal text of a number gives the number back.
pub proof fn lemma_parse_decimal(n: usize)
    ensures
        parse_usize(decimal(n as nat)) == Some(n),
{
    lemma_decimal_digits(n as nat);
    let d = decimal(n as nat);
    assert(unsigned_digits(d) == d);
}

/// The decimal text of a number is a nonempty sequence of digits, with no
/// '+', whose value is the number.
pub proof fn lemma_decimal_digits(n: nat)
    ensures
        decimal(n).len() > 0,
        decimal(n)[0] != '+',
        forall|i: int| 0 <= i < decimal(n).len() ==> is_digit(#[trigger] decimal(n)[i]),
        digits_value(decimal(n)) == n,
    decreases n,
{
    if n >= 10 {
        lemma_decimal_digits(n / 10);
        let d = decimal(n);
        assert(d.drop_last() =~= decimal(n / 10));
        assert forall|i: int| 0 <= i < d.len() implies is_digit(#[trigger] d[i]) by {
            if i < d.len() - 1 {
                assert(d[i] == decimal(n / 10)[i]);
            }
        }
        assert(d[0] == decimal(n / 10)[0]);
    } else {
        assert(digits_value(decimal(n).drop_last()) == 0);
    }
}

} // verus!

//! StringService provides operations on strings: the business logic of a
//! small JSON-RPC service.
use vstd::prelude::*;
use vstd::utf8::encode_utf8;
use crate::text::text;

verus! {

broadcast use vstd::string::group_string_axioms;

/// The operations of the service. The JSON-RPC handler that serves them
/// is set up by the program around the library.
pub struct StringService;

/// A service whose every method is a remote procedure call, described by
/// the request that carries its inputs and the response that carries its
/// outputs.
pub trait RequestResponse {}

/// A character in upper case, for the ASCII letters; any other character
/// is kept.
pub open spec fn ascii_upper(c: char) -> char {
    if 'a' <= c && c <= 'z' {
        ((c as u32) - 32) as char
    } else {
        c
    }
}

/// What ASCII upper case does to one character: a lower-case ASCII letter
/// becomes the upper-case letter 32 code points below it, every other
/// character is kept, and no lower-case ASCII letter is left.
pub proof fn lemma_ascii_upper(c: char)
    ensures
        'a' <= c <= 'z' ==> ascii_upper(c) as u32 == c as u32 - 32,
        'a' <= c <= 'z' ==> 'A' <= ascii_upper(c) <= 'Z',
        !('a' <= c <= 'z') ==> ascii_upper(c) == c,
        !('a' <= ascii_upper(c) <= 'z'),
{
}

/// Appends a character to a string (std's `String::push`). Trusted: the
/// string gains the character at its end.
#[verifier::external_body]
fn push_char(s: &mut String, c: char)
    ensures
        final(s)@ == old(s)@.push(c),
{
    s.push(c);
}

/// The ASCII upper case of a character.
fn upper_char(c: char) -> (r: char)
    ensures
        r == ascii_upper(c),
{
    if 'a' <= c && c <= 'z' {
        let b = (c as u8) - 32;
        b as char
    } else {
        c
    }
}

impl StringService {
    /// The text in ASCII upper case; an empty text is an error.
    pub fn uppercase(input: String) -> (r: Result<String, String>)
        ensures
            input@.len() == 0 ==> (r matches Err(e) && e@ == "Empty String"@),
            input@.len() > 0 ==> (r matches Ok(s) && s@ == input@.map_values(|c: char| ascii_upper(c))),
            r matches Ok(s) ==> s@.len() == input@.len() && forall|i: int|
                0 <= i < input@.len() ==> {
                    &&& !('a' <= #[trigger] s@[i] <= 'z')
                    &&& ('a' <= input@[i] <= 'z' ==> s@[i] as u32 == input@[i] as u32 - 32)
                    &&& (!('a' <= input@[i] <= 'z') ==> s@[i] == input@[i])
                },
    {
        if input.as_str().is_empty() {
            return Err(text("Empty String"));
        }
        let cs = crate::lex::chars_of(input.as_str());
        let mut out = String::new();
        let mut i: usize = 0;
        while i < cs.len()
            invariant
                cs@ == input@,
                i <= cs.len(),
                out@ == input@.take(i as int).map_values(|c: char| ascii_upper(c)),
            decreases cs.len() - i,
        {
            let u = upper_char(cs[i]);
            push_char(&mut out, u);
            proof {
                assert(input@.take(i + 1) =~= input@.take(i as int).push(input@[i as int]));
                assert(out@ =~= input@.take(i + 1).map_values(|c: char| ascii_upper(c)));
            }
            i = i + 1;
        }
        assert(input@.take(cs.len() as int) =~= input@);
        proof {
            assert forall|i: int| 0 <= i < input@.len() implies {
                &&& !('a' <= #[trigger] out@[i] <= 'z')
                &&& ('a' <= input@[i] <= 'z' ==> out@[i] as u32 == input@[i] as u32 - 32)
                &&& (!('a' <= input@[i] <= 'z') ==> out@[i] == input@[i])
            } by {
                lemma_ascii_upper(input@[i]);
            }
        }
        Ok(out)
    }

    /// The length of the text in bytes.
    pub fn count(input: String) -> (r: usize)
        ensures
            r == encode_utf8(input@).len() as usize,
    {
        input.as_str().len()
    }
}

} // verus!

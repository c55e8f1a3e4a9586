//! Basic authentication: reading a user name and password from an
//! `Authorization` header.

use vstd::prelude::*;
use vstd::utf8::{
    decode_utf8, encode_utf8, encode_utf8_decode_utf8, encode_utf8_valid_utf8, valid_utf8,
};
use crate::outcome::{GuardOutcome, BAD_REQUEST, UNAUTHORIZED};
use crate::text::{lemma_split_at_only_char, split_seq, split_str, str_eq, string_from_chars, to_chars, views};

verus! {

/// The user name and password carried by a Basic `Authorization` header.
pub struct BasicAuthRaw {
    pub username: String,
    pub password: String,
}

/// A character with the Unicode `White_Space` property, the characters
/// that `char::is_whitespace` accepts.
pub open spec fn is_whitespace(c: char) -> bool {
    ||| '\u{9}' <= c <= '\u{d}'
    ||| c == ' '
    ||| c == '\u{85}'
    ||| c == '\u{a0}'
    ||| c == '\u{1680}'
    ||| '\u{2000}' <= c <= '\u{200a}'
    ||| c == '\u{2028}'
    ||| c == '\u{2029}'
    ||| c == '\u{202f}'
    ||| c == '\u{205f}'
    ||| c == '\u{3000}'
}

/// Whether `c` is a whitespace character.
pub fn is_whitespace_char(c: char) -> (r: bool)
    ensures
        r == is_whitespace(c),
{
    ('\u{9}' <= c && c <= '\u{d}') || c == ' ' || c == '\u{85}' || c == '\u{a0}' || c
        == '\u{1680}' || ('\u{2000}' <= c && c <= '\u{200a}') || c == '\u{2028}' || c
        == '\u{2029}' || c == '\u{202f}' || c == '\u{205f}' || c == '\u{3000}'
}

/// The words of `s` given that the word being read so far is `cur`:
/// the maximal runs of characters that are not whitespace.
pub open spec fn words_from(s: Seq<char>, cur: Seq<char>) -> Seq<Seq<char>>
    decreases s.len(),
{
    let done: Seq<Seq<char>> = if cur.len() > 0 {
        seq![cur]
    } else {
        seq![]
    };
    if s.len() == 0 {
        done
    } else if is_whitespace(s[0]) {
        done + words_from(s.drop_first(), seq![])
    } else {
        words_from(s.drop_first(), cur.push(s[0]))
    }
}

/// The whitespace-separated words of `s` (the semantics of `str::split_whitespace`).
pub open spec fn words(s: Seq<char>) -> Seq<Seq<char>> {
    words_from(s, seq![])
}

/// The whitespace-separated words of `s`.
pub fn split_whitespace(s: &str) -> (r: Vec<String>)
    ensures
        views(r@) == words(s@),
{
    let cs = to_chars(s);
    let mut out: Vec<String> = Vec::new();
    let mut cur: Vec<char> = Vec::new();
    let mut i: usize = 0;
    assert(cs@.skip(0) =~= cs@);
    while i < cs.len()
        invariant
            i <= cs.len(),
            cs@ == s@,
            views(out@) + words_from(cs@.skip(i as int), cur@) == words(s@),
        decreases cs.len() - i,
    {
        let c = cs[i];
        let ghost rest = cs@.skip(i as int);
        assert(rest[0] == c);
        assert(rest.drop_first() =~= cs@.skip(i + 1));
        if is_whitespace_char(c) {
            if cur.len() > 0 {
                let w = string_from_chars(&cur);
                let ghost before = out@;
                out.push(w);
                assert(views(out@) =~= views(before) + seq![cur@]);
                assert(views(before) + (seq![cur@] + words_from(cs@.skip(i + 1), seq![]))
                    =~= views(out@) + words_from(cs@.skip(i + 1), seq![]));
            } else {
                assert(seq![] + words_from(cs@.skip(i + 1), seq![]) =~= words_from(
                    cs@.skip(i + 1),
                    seq![],
                ));
            }
            cur = Vec::new();
            assert(cur@ =~= seq![]);
        } else {
            cur.push(c);
        }
        i = i + 1;
    }
    if cur.len() > 0 {
        let w = string_from_chars(&cur);
        let ghost before = out@;
        out.push(w);
        assert(views(out@) =~= views(before) + seq![cur@]);
    } else {
        assert(views(out@) + seq![] =~= views(out@));
    }
    out
}

/// Name for what `base64::decode` (standard alphabet, padded) yields for the
/// UTF-8 bytes of `text`: `None` where it reports a decoding error.
pub uninterp spec fn base64_decoded(text: Seq<char>) -> Option<Seq<u8>>;

/// `base64::decode`: decodes standard, padded Base64. Claimed: the result
/// is a function of the text alone, `None` exactly where the crate reports
/// an error. What the decoding computes is not stated.
#[verifier::external_body]
fn decode_base64(text: &str) -> (r: Option<Vec<u8>>)
    ensures
        match r {
            Some(v) => base64_decoded(text@) == Some(v@),
            None => base64_decoded(text@) is None,
        },
{
    base64::decode(text).ok()
}

/// `String::from_utf8`: the string that the bytes encode, or `None` where
/// they are not valid UTF-8.
#[verifier::external_body]
fn string_from_utf8(bytes: Vec<u8>) -> (r: Option<String>)
    ensures
        r is Some <==> valid_utf8(bytes@),
        r matches Some(s) ==> s@ == decode_utf8(bytes@),
{
    String::from_utf8(bytes).ok()
}

/// The Base64 payload of a header value of the form `Basic <payload>`:
/// exactly two words, the first of them `Basic`.
pub open spec fn basic_payload(header: Seq<char>) -> Option<Seq<char>> {
    let w = words(header);
    if w.len() == 2 && w[0] == "Basic"@ {
        Some(w[1])
    } else {
        None
    }
}

/// The user name and password held by decoded credentials: UTF-8 text
/// with exactly one `:`.
pub open spec fn credentials(decoded: Seq<u8>) -> Option<(Seq<char>, Seq<char>)> {
    if !valid_utf8(decoded) {
        None
    } else {
        let parts = split_seq(decode_utf8(decoded), seq![':']);
        if parts.len() == 2 {
            Some((parts[0], parts[1]))
        } else {
            None
        }
    }
}

/// Decoding the UTF-8 of `name:password` gives back the name and the
/// password, for every name and password that hold no `:`.
pub proof fn law_credentials_round_trip(name: Seq<char>, password: Seq<char>)
    requires
        !name.contains(':'),
        !password.contains(':'),
    ensures
        credentials(encode_utf8(name + seq![':'] + password)) == Some((name, password)),
{
    let text = name + seq![':'] + password;
    encode_utf8_valid_utf8(text);
    encode_utf8_decode_utf8(text);
    lemma_split_at_only_char(name, ':', password);
}

/// What the guard decides for the given decoded credentials.
pub open spec fn credentials_outcome(decoded: Seq<u8>, r: GuardOutcome<BasicAuthRaw>) -> bool {
    match r {
        GuardOutcome::Success(b) => credentials(decoded) == Some((b.username@, b.password@)),
        GuardOutcome::Failure(code) => credentials(decoded) is None && code == BAD_REQUEST,
        GuardOutcome::Forward => false,
    }
}

impl BasicAuthRaw {
    /// Reads the user name and password from decoded credentials, which
    /// must be UTF-8 text of the form `name:password`; anything else is a
    /// bad request.
    pub fn from_decoded(decoded: Vec<u8>) -> (r: GuardOutcome<BasicAuthRaw>)
        ensures
            credentials_outcome(decoded@, r),
    {
        let ghost bytes = decoded@;
        match string_from_utf8(decoded) {
            None => GuardOutcome::Failure(BAD_REQUEST),
            Some(text) => {
                proof {
                    reveal_strlit(":");
                    assert(":"@ =~= seq![':']);
                }
                let split = split_str(text.as_str(), ":");
                if split.len() != 2 {
                    GuardOutcome::Failure(BAD_REQUEST)
                } else {
                    assert(views(split@)[0] == split@[0]@);
                    assert(views(split@)[1] == split@[1]@);
                    GuardOutcome::Success(
                        BasicAuthRaw { username: split[0].clone(), password: split[1].clone() },
                    )
                }
            },
        }
    }

    /// Reads Basic credentials from the value of the `Authorization` header:
    /// a missing header or one that is not `Basic <payload>` is unauthorized,
    /// a payload that is not Base64 is a bad request, and the decoded
    /// payload is read by `from_decoded`.
    pub fn from_header(header: Option<&str>) -> (r: GuardOutcome<BasicAuthRaw>)
        ensures
            match header {
                None => r == GuardOutcome::<BasicAuthRaw>::Failure(UNAUTHORIZED),
                Some(h) => match basic_payload(h@) {
                    None => r == GuardOutcome::<BasicAuthRaw>::Failure(UNAUTHORIZED),
                    Some(p) => match base64_decoded(p) {
                        None => r == GuardOutcome::<BasicAuthRaw>::Failure(BAD_REQUEST),
                        Some(bytes) => credentials_outcome(bytes, r),
                    },
                },
            },
    {
        match header {
            None => GuardOutcome::Failure(UNAUTHORIZED),
            Some(h) => {
                let split = split_whitespace(h);
                if split.len() != 2 {
                    return GuardOutcome::Failure(UNAUTHORIZED);
                }
                assert(views(split@)[0] == split@[0]@);
                assert(views(split@)[1] == split@[1]@);
                if !str_eq(split[0].as_str(), "Basic") {
                    return GuardOutcome::Failure(UNAUTHORIZED);
                }
                match decode_base64(split[1].as_str()) {
                    None => GuardOutcome::Failure(BAD_REQUEST),
                    Some(bytes) => BasicAuthRaw::from_decoded(bytes),
                }
            },
        }
    }
}

} // verus!

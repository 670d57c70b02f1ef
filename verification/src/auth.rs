//! HTTP Basic-Auth verification against an in-memory credential store:
//! header splitting, scheme check, base64 and UTF-8 decoding with a precise
//! error taxonomy, and the username/secret lookup.
//!
//! The store is written once at construction and read-only afterwards; an
//! embedding application that serves concurrent requests shares it behind a
//! reader/writer lock, all callers on the shared (read) side.

use vstd::prelude::*;
use vstd::string::StrSliceExecFns;
use vstd::utf8::{decode_utf8, valid_utf8};

use base64::Engine;

use crate::errors::Error;
use crate::text::{chars_of, find_char, first_index_of, seq_contains_char};

verus! {

/// What base64's standard-alphabet padded engine decodes a text to, or
/// nothing where it rejects the text. The result depends on the text alone.
pub uninterp spec fn base64_decoding(s: Seq<char>) -> Option<Seq<u8>>;

/// Relies on base64's `Engine::decode` with the `STANDARD` engine
/// (standard alphabet, padded): decodes the input into new bytes, or
/// rejects it; which of the two, and the bytes, depend on the input alone.
#[verifier::external_body]
fn decode_base64(s: &str) -> (r: Result<Vec<u8>, String>)
    ensures
        r is Ok <==> base64_decoding(s@) is Some,
        r matches Ok(v) ==> Some(v@) == base64_decoding(s@),
{
    match base64::engine::general_purpose::STANDARD.decode(s) {
        Ok(v) => Ok(v),
        Err(e) => Err(e.to_string()),
    }
}

/// Relies on String::from_utf8: succeeds exactly on valid UTF-8 input and
/// returns the text those bytes encode.
#[verifier::external_body]
fn utf8_to_string(bytes: Vec<u8>) -> (r: Result<String, String>)
    ensures
        r is Ok <==> valid_utf8(bytes@),
        r matches Ok(s) ==> s@ == decode_utf8(bytes@),
{
    match String::from_utf8(bytes) {
        Ok(s) => Ok(s),
        Err(e) => Err(e.to_string()),
    }
}

/// Is `s` the scheme token `Basic`, compared case-insensitively?
pub open spec fn is_basic_scheme(s: Seq<char>) -> bool {
    &&& s.len() == 5
    &&& (s[0] == 'B' || s[0] == 'b')
    &&& (s[1] == 'A' || s[1] == 'a')
    &&& (s[2] == 'S' || s[2] == 's')
    &&& (s[3] == 'I' || s[3] == 'i')
    &&& (s[4] == 'C' || s[4] == 'c')
}

/// What `get_credentials` yields for a credential segment, stated over the
/// decoding of the segment: the username before the first `:` and the
/// secret after it, or the error that names what went wrong.
pub open spec fn credentials_outcome(input: Seq<char>, r: Result<(String, String), Error>) -> bool {
    match base64_decoding(input) {
        None => r matches Err(e) && e matches Error::InvalidBase64Value(_),
        Some(bytes) => {
            if !valid_utf8(bytes) {
                r matches Err(e) && e matches Error::InvalidUtf8Value(_)
            } else {
                let text = decode_utf8(bytes);
                if !seq_contains_char(text, ':') {
                    r == Err::<(String, String), Error>(Error::InvalidAuthHeader)
                } else {
                    let q = first_index_of(text, ':');
                    r matches Ok(c) && c.0@ == text.subrange(0, q) && c.1@ == text.subrange(
                        q + 1,
                        text.len() as int,
                    )
                }
            }
        },
    }
}

/// Decodes a base64 credential segment into the username and the secret,
/// split at the first `:` of the decoded text.
pub fn get_credentials(input: String) -> (r: Result<(String, String), Error>)
    ensures
        credentials_outcome(input@, r),
{
    let bytes = match decode_base64(input.as_str()) {
        Ok(v) => v,
        Err(m) => {
            return Err(Error::InvalidBase64Value(m));
        },
    };
    let decoded = match utf8_to_string(bytes) {
        Ok(s) => s,
        Err(m) => {
            return Err(Error::InvalidUtf8Value(m));
        },
    };
    let cs = chars_of(decoded.as_str());
    match find_char(&cs, ':') {
        None => Err(Error::InvalidAuthHeader),
        Some(q) => {
            let n = decoded.as_str().unicode_len();
            let username = decoded.as_str().substring_char(0, q).to_owned();
            let password = decoded.as_str().substring_char(q + 1, n).to_owned();
            Ok((username, password))
        },
    }
}

/// The credential map that a sequence of username/secret pairs loads to:
/// pairs are entered in order, and a later secret for the same username
/// overwrites an earlier one.
pub open spec fn assoc_map(s: Seq<(String, String)>) -> Map<Seq<char>, Seq<char>>
    decreases s.len(),
{
    if s.len() == 0 {
        Map::empty()
    } else {
        assoc_map(s.drop_last()).insert(s.last().0@, s.last().1@)
    }
}

proof fn lemma_assoc_map_last_match(s: Seq<(String, String)>, k: Seq<char>, i: int)
    requires
        0 <= i < s.len(),
        s[i].0@ == k,
        forall|j: int| i < j < s.len() ==> s[j].0@ != k,
    ensures
        assoc_map(s).contains_key(k),
        assoc_map(s)[k] == s[i].1@,
    decreases s.len(),
{
    if i == s.len() - 1 {
    } else {
        lemma_assoc_map_last_match(s.drop_last(), k, i);
    }
}

proof fn lemma_assoc_map_no_match(s: Seq<(String, String)>, k: Seq<char>)
    requires
        forall|j: int| 0 <= j < s.len() ==> s[j].0@ != k,
    ensures
        !assoc_map(s).contains_key(k),
    decreases s.len(),
{
    if s.len() > 0 {
        lemma_assoc_map_no_match(s.drop_last(), k);
    }
}

/// The in-memory credential store: username/secret pairs, checked against
/// a decoded Basic-Auth header.
#[derive(Debug)]
pub struct AuthInMemoryMiddleware {
    data: Vec<(String, String)>,
}

impl AuthInMemoryMiddleware {
    /// The credential map: at most one secret per username, later entries
    /// of the loaded data having overwritten earlier ones.
    pub closed spec fn credentials(&self) -> Map<Seq<char>, Seq<char>> {
        assoc_map(self.data@)
    }

    /// A store holding the given username/secret pairs.
    pub fn new_with_data(existing_data: Vec<(String, String)>) -> (r: Self)
        ensures
            r.credentials() == assoc_map(existing_data@),
    {
        AuthInMemoryMiddleware { data: existing_data }
    }

    /// The stored secret for a username, if any: the one entered last.
    fn lookup_secret(&self, username: &String) -> (r: Option<&String>)
        ensures
            r matches Some(p) ==> self.credentials().contains_key(username@) && p@
                == self.credentials()[username@],
            r is None ==> !self.credentials().contains_key(username@),
    {
        let n = self.data.len();
        let mut i: usize = n;
        while i > 0
            invariant
                i <= n,
                n == self.data@.len(),
                forall|j: int| i <= j < n ==> self.data@[j].0@ != username@,
            decreases i,
    {
            i -= 1;
            if self.data[i].0 == *username {
                proof {
                    lemma_assoc_map_last_match(self.data@, username@, i as int);
                }
                return Some(&self.data[i].1);
            }
        }
        proof {
            lemma_assoc_map_no_match(self.data@, username@);
        }
        None
    }

    /// Checks an Authorization header value, assuming the HTTP Basic-Auth
    /// scheme, against the store. A well-formed header whose credentials
    /// simply do not match yields `Ok(false)`, not an error; each malformed
    /// shape yields its own error kind.
    pub fn http_basic_auth(&self, auth_header: String) -> (r: Result<bool, Error>)
        ensures
            ({
                let h = auth_header@;
                &&& !seq_contains_char(h, ' ') ==> r == Err::<bool, Error>(
                    Error::InvalidAuthHeader,
                )
                &&& seq_contains_char(h, ' ') ==> ({
                    let p = first_index_of(h, ' ');
                    let scheme = h.subrange(0, p);
                    let segment = h.subrange(p + 1, h.len() as int);
                    &&& seq_contains_char(segment, ' ') ==> (r matches Err(e) && e matches
                        Error::InvalidBase64Value(m) && m@ == segment)
                    &&& (!seq_contains_char(segment, ' ') && !is_basic_scheme(scheme)) ==> (
                    r matches Err(e) && e matches Error::InvalidScheme(m) && m@ == scheme)
                    &&& (!seq_contains_char(segment, ' ') && is_basic_scheme(scheme)) ==> (match
                        base64_decoding(segment) {
                        None => r matches Err(e) && e matches Error::InvalidBase64Value(_),
                        Some(bytes) => {
                            if !valid_utf8(bytes) {
                                r matches Err(e) && e matches Error::InvalidUtf8Value(_)
                            } else {
                                let text = decode_utf8(bytes);
                                if !seq_contains_char(text, ':') {
                                    r == Err::<bool, Error>(Error::InvalidAuthHeader)
                                } else {
                                    let q = first_index_of(text, ':');
                                    let u = text.subrange(0, q);
                                    let w = text.subrange(q + 1, text.len() as int);
                                    r == Ok::<bool, Error>(self.credentials().contains_key(u)
                                        && self.credentials()[u] == w)
                                }
                            }
                        },
                    })
                })
            }),
    {
        let cs = chars_of(auth_header.as_str());
        let p = match find_char(&cs, ' ') {
            None => {
                return Err(Error::InvalidAuthHeader);
            },
            Some(p) => p,
        };
        let n = auth_header.as_str().unicode_len();
        let segment = auth_header.as_str().substring_char(p + 1, n).to_owned();
        let segment_chars = chars_of(segment.as_str());
        if find_char(&segment_chars, ' ').is_some() {
            return Err(Error::InvalidBase64Value(segment));
        }
        let basic = p == 5 && {
            let c0 = cs[0];
            let c1 = cs[1];
            let c2 = cs[2];
            let c3 = cs[3];
            let c4 = cs[4];
            (c0 == 'B' || c0 == 'b') && (c1 == 'A' || c1 == 'a') && (c2 == 'S' || c2 == 's') && (c3
                == 'I' || c3 == 'i') && (c4 == 'C' || c4 == 'c')
        };
        if !basic {
            let scheme = auth_header.as_str().substring_char(0, p).to_owned();
            return Err(Error::InvalidScheme(scheme));
        }
        let (username, password) = match get_credentials(segment) {
            Ok(t) => t,
            Err(e) => {
                return Err(e);
            },
        };
        match self.lookup_secret(&username) {
            Some(secret) => Ok(*secret == password),
            None => Ok(false),
        }
    }
}

} // verus!

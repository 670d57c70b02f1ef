//! Phone/email validation: verified matchers for the email pattern and the
//! German phone fallback pattern, the name validity check, and the outcome
//! policy for the external phone-verification service.

use vstd::prelude::*;
use vstd::string::StrSliceExecFns;

use crate::errors::Error;
use crate::pagination::is_ascii_digit;
use crate::text::{
    chars_of, dec_str_i64, dec_str_nat, decimal_chars_i64, decimal_chars_u64, push_char,
};

verus! {

/// Is `c` a lowercase letter?
pub open spec fn is_lower(c: char) -> bool {
    'a' <= c && c <= 'z'
}

/// Is `c` a lowercase letter or a digit?
pub open spec fn is_alnum(c: char) -> bool {
    is_lower(c) || is_ascii_digit(c)
}

/// Is `c` allowed at the edges of the local part of an email address?
pub open spec fn is_local_char(c: char) -> bool {
    is_alnum(c) || c == '_' || c == '+'
}

/// The local part of an email address: non-empty, made of lowercase
/// alphanumerics, `_` and `+`, with interior dots allowed.
pub open spec fn is_local_seq(l: Seq<char>) -> bool {
    &&& l.len() >= 1
    &&& is_local_char(l[0])
    &&& is_local_char(l[l.len() - 1])
    &&& forall|i: int| 0 <= i < l.len() ==> is_local_char(l[i]) || l[i] == '.'
}

/// Is `c` a label separator inside a host name?
pub open spec fn is_host_sep(c: char) -> bool {
    c == '-' || c == '.'
}

/// The host part before the final dot: alphanumeric labels joined by single
/// `-` or `.` separators, starting and ending alphanumeric.
pub open spec fn is_host_seq(h: Seq<char>) -> bool {
    &&& h.len() >= 1
    &&& is_alnum(h[0])
    &&& is_alnum(h[h.len() - 1])
    &&& forall|i: int| 0 <= i < h.len() ==> is_alnum(h[i]) || is_host_sep(h[i])
    &&& forall|i: int|
        0 <= i && i + 1 < h.len() ==> !(#[trigger] is_host_sep(h[i]) && is_host_sep(h[i + 1]))
}

/// A top-level domain: two to six lowercase letters.
pub open spec fn is_tld_seq(t: Seq<char>) -> bool {
    &&& 2 <= t.len() <= 6
    &&& forall|i: int| 0 <= i < t.len() ==> is_lower(t[i])
}

/// One way of reading `s` as an email address followed by anything: a local
/// part, `@`, a host, `.`, a top-level domain, and an arbitrary remainder.
pub open spec fn email_decomposition(
    s: Seq<char>,
    l: Seq<char>,
    h: Seq<char>,
    t: Seq<char>,
    rest: Seq<char>,
) -> bool {
    &&& s == l + seq!['@'] + h + seq!['.'] + t + rest
    &&& is_local_seq(l)
    &&& is_host_seq(h)
    &&& is_tld_seq(t)
}

/// Does a prefix of `s` match the email pattern? This is the language of
/// the unanchored-at-the-end, anchored-at-the-start pattern
/// `^local@host.tld`, with the character classes above.
pub open spec fn email_matches(s: Seq<char>) -> bool {
    exists|l: Seq<char>, h: Seq<char>, t: Seq<char>, rest: Seq<char>|
        #[trigger] email_decomposition(s, l, h, t, rest)
}

/// A positional reading of the email pattern: `@` at `p`, a host of length
/// `m` after it, then `.` and at least two lowercase letters.
pub open spec fn email_match_at(s: Seq<char>, p: int, m: int) -> bool {
    &&& 1 <= p
    &&& 1 <= m
    &&& p + m + 3 < s.len()
    &&& is_local_seq(s.subrange(0, p))
    &&& s[p] == '@'
    &&& is_host_seq(s.subrange(p + 1, p + 1 + m))
    &&& s[p + 1 + m] == '.'
    &&& is_lower(s[p + m + 2])
    &&& is_lower(s[p + m + 3])
}

proof fn lemma_email_match_at_sound(s: Seq<char>, p: int, m: int)
    requires
        email_match_at(s, p, m),
    ensures
        email_matches(s),
{
    let l = s.subrange(0, p);
    let h = s.subrange(p + 1, p + 1 + m);
    let t = s.subrange(p + m + 2, p + m + 4);
    let rest = s.subrange(p + m + 4, s.len() as int);
    assert(s =~= l + seq!['@'] + h + seq!['.'] + t + rest);
    assert(t[0] == s[p + m + 2] && t[1] == s[p + m + 3]);
    assert(is_tld_seq(t));
    assert(email_decomposition(s, l, h, t, rest));
}

proof fn lemma_email_match_at_complete(s: Seq<char>)
    requires
        email_matches(s),
    ensures
        exists|p: int, m: int| #[trigger] email_match_at(s, p, m),
{
    let (l, h, t, rest): (Seq<char>, Seq<char>, Seq<char>, Seq<char>) = choose|
        l: Seq<char>,
        h: Seq<char>,
        t: Seq<char>,
        rest: Seq<char>,
    | #[trigger] email_decomposition(s, l, h, t, rest);
    let p = l.len() as int;
    let m = h.len() as int;
    assert(s.subrange(0, p) =~= l);
    assert(s[p] == '@');
    assert(s.subrange(p + 1, p + 1 + m) =~= h);
    assert(s[p + 1 + m] == '.');
    assert(s[p + m + 2] == t[0]);
    assert(s[p + m + 3] == t[1]);
    assert(is_lower(t[0]) && is_lower(t[1]));
    assert(email_match_at(s, p, m));
}

/// In any positional match, `p` is the first `@` of `s`: the local part
/// cannot contain `@`.
proof fn lemma_email_at_first(s: Seq<char>, p: int, m: int)
    requires
        email_match_at(s, p, m),
    ensures
        crate::text::is_first_occurrence(s, '@', p),
{
    let l = s.subrange(0, p);
    assert forall|j: int| 0 <= j < p implies s[j] != '@' by {
        assert(l[j] == s[j]);
        assert(is_local_char(l[j]) || l[j] == '.');
    }
}

/// Is position `m` of `t` the dot that ends a host prefix and starts a
/// top-level domain of at least two letters?
pub open spec fn domain_match_at(t: Seq<char>, m: int) -> bool {
    &&& 1 <= m
    &&& m + 2 < t.len()
    &&& is_host_seq(t.subrange(0, m))
    &&& t[m] == '.'
    &&& is_lower(t[m + 1])
    &&& is_lower(t[m + 2])
}

fn check_local(cs: &Vec<char>, p: usize) -> (r: bool)
    requires
        p <= cs@.len(),
    ensures
        r == is_local_seq(cs@.subrange(0, p as int)),
{
    let ghost l = cs@.subrange(0, p as int);
    if p == 0 {
        return false;
    }
    let c0 = cs[0];
    if !(('a' <= c0 && c0 <= 'z') || ('0' <= c0 && c0 <= '9') || c0 == '_' || c0 == '+') {
        proof {
            assert(l[0] == c0);
        }
        return false;
    }
    let cl = cs[p - 1];
    if !(('a' <= cl && cl <= 'z') || ('0' <= cl && cl <= '9') || cl == '_' || cl == '+') {
        proof {
            assert(l[l.len() - 1] == cl);
        }
        return false;
    }
    let mut i: usize = 0;
    while i < p
        invariant
            0 <= i <= p <= cs@.len(),
            l == cs@.subrange(0, p as int),
            forall|j: int| 0 <= j < i ==> is_local_char(l[j]) || l[j] == '.',
        decreases p - i,
    {
        let c = cs[i];
        if !(('a' <= c && c <= 'z') || ('0' <= c && c <= '9') || c == '_' || c == '+' || c == '.') {
            proof {
                assert(l[i as int] == c);
            }
            return false;
        }
        proof {
            assert(l[i as int] == c);
        }
        i += 1;
    }
    proof {
        assert(l[0] == c0 && l[l.len() - 1] == cl);
    }
    true
}

fn check_host_prefix(t: &Vec<char>, m: usize) -> (r: bool)
    requires
        m <= t@.len(),
    ensures
        r == is_host_seq(t@.subrange(0, m as int)),
{
    let ghost h = t@.subrange(0, m as int);
    if m == 0 {
        return false;
    }
    let c0 = t[0];
    if !(('a' <= c0 && c0 <= 'z') || ('0' <= c0 && c0 <= '9')) {
        proof {
            assert(h[0] == c0);
        }
        return false;
    }
    let cl = t[m - 1];
    if !(('a' <= cl && cl <= 'z') || ('0' <= cl && cl <= '9')) {
        proof {
            assert(h[h.len() - 1] == cl);
        }
        return false;
    }
    let mut i: usize = 0;
    while i < m
        invariant
            0 <= i <= m <= t@.len(),
            h == t@.subrange(0, m as int),
            forall|j: int| 0 <= j < i ==> is_alnum(h[j]) || is_host_sep(h[j]),
            forall|j: int|
                0 <= j && j + 1 < i ==> !(#[trigger] is_host_sep(h[j]) && is_host_sep(h[j + 1])),
        decreases m - i,
    {
        let c = t[i];
        let alnum = ('a' <= c && c <= 'z') || ('0' <= c && c <= '9');
        let sep = c == '-' || c == '.';
        if !(alnum || sep) {
            proof {
                assert(h[i as int] == c);
            }
            return false;
        }
        if sep && i > 0 {
            let prev = t[i - 1];
            if prev == '-' || prev == '.' {
                proof {
                    assert(h[i as int] == c && h[i - 1] == prev);
                    assert(is_host_sep(h[i - 1]) && is_host_sep(h[i as int]));
                }
                return false;
            }
        }
        proof {
            assert(h[i as int] == c);
            if i > 0 {
                assert(h[i - 1] == t@[i - 1]);
            }
        }
        i += 1;
    }
    proof {
        assert(h[0] == c0 && h[h.len() - 1] == cl);
    }
    true
}

fn find_domain_match(tail: &Vec<char>) -> (r: bool)
    ensures
        r == exists|m: int| #[trigger] domain_match_at(tail@, m),
{
    let n = tail.len();
    if n < 4 {
        proof {
            assert forall|m: int| !(#[trigger] domain_match_at(tail@, m)) by {}
        }
        return false;
    }
    let mut m: usize = 1;
    while m <= n - 3
        invariant
            4 <= n,
            1 <= m <= n - 2,
            n == tail@.len(),
            forall|k: int| 1 <= k < m ==> !(#[trigger] domain_match_at(tail@, k)),
        decreases n - m,
    {
        if tail[m] == '.' {
            let c1 = tail[m + 1];
            let c2 = tail[m + 2];
            if ('a' <= c1 && c1 <= 'z') && ('a' <= c2 && c2 <= 'z') {
                if check_host_prefix(tail, m) {
                    proof {
                        assert(domain_match_at(tail@, m as int));
                    }
                    return true;
                }
            }
        }
        m += 1;
    }
    proof {
        assert forall|k: int| !(#[trigger] domain_match_at(tail@, k)) by {
            if 1 <= k < m {
            } else if k >= m {
                assert(k + 2 >= n);
            }
        }
    }
    false
}

/// Does a prefix of `email` match the email pattern
/// `local@host.tld` described by the spec predicates above?
pub fn is_email_valid(email: &str) -> (r: bool)
    ensures
        r == email_matches(email@),
{
    let ghost s = email@;
    let cs = chars_of(email);
    let p = match crate::text::find_char(&cs, '@') {
        None => {
            proof {
                if email_matches(s) {
                    lemma_email_match_at_complete(s);
                    let (p0, m0): (int, int) = choose|p0: int, m0: int|
                        #[trigger] email_match_at(s, p0, m0);
                    assert(s[p0] == '@');
                    assert(crate::text::seq_contains_char(s, '@'));
                }
            }
            return false;
        },
        Some(p) => p,
    };
    if !check_local(&cs, p) {
        proof {
            if email_matches(s) {
                lemma_email_match_at_complete(s);
                let (p0, m0): (int, int) = choose|p0: int, m0: int|
                    #[trigger] email_match_at(s, p0, m0);
                lemma_email_at_first(s, p0, m0);
                crate::text::lemma_first_occurrence_unique(s, '@', p0);
                assert(p0 == p);
            }
        }
        return false;
    }
    let n = cs.len();
    let tail = crate::text::vec_char_slice(&cs, p + 1, n);
    let found = find_domain_match(&tail);
    proof {
        if found {
            let m = choose|m: int| #[trigger] domain_match_at(tail@, m);
            assert(tail@.subrange(0, m) =~= s.subrange(p + 1, p + 1 + m));
            assert(s[p + 1 + m] == tail@[m]);
            assert(s[p + m + 2] == tail@[m + 1]);
            assert(s[p + m + 3] == tail@[m + 2]);
            assert(email_match_at(s, p as int, m));
            lemma_email_match_at_sound(s, p as int, m);
        } else {
            if email_matches(s) {
                lemma_email_match_at_complete(s);
                let (p0, m0): (int, int) = choose|p0: int, m0: int|
                    #[trigger] email_match_at(s, p0, m0);
                lemma_email_at_first(s, p0, m0);
                crate::text::lemma_first_occurrence_unique(s, '@', p0);
                assert(p0 == p);
                assert(s.subrange(p + 1, p + 1 + m0) =~= tail@.subrange(0, m0));
                assert(tail@[m0] == s[p + 1 + m0]);
                assert(tail@[m0 + 1] == s[p + m0 + 2]);
                assert(tail@[m0 + 2] == s[p + m0 + 3]);
                assert(domain_match_at(tail@, m0));
            }
        }
    }
    found
}

/// Is the name INVALID? True exactly when the name is empty or longer than
/// 255 characters; this polarity (`true` means "is invalid") is part of the
/// contract and must not be flipped.
pub fn is_name_valid(name: &str) -> (r: bool)
    ensures
        r == (name@.len() == 0 || name@.len() > 255),
{
    let n = name.unicode_len();
    n == 0 || n > 255
}

/// Does `s` contain `49` followed by at least nine digits, at position `i`?
pub open spec fn phone_fallback_match_at(s: Seq<char>, i: int) -> bool {
    &&& 0 <= i
    &&& i + 11 <= s.len()
    &&& s[i] == '4'
    &&& s[i + 1] == '9'
    &&& forall|j: int| i + 2 <= j < i + 11 ==> is_ascii_digit(s[j])
}

/// The German phone fallback pattern, searched anywhere in `s`: the literal
/// `49` followed by nine (or more) digits.
pub open spec fn phone_fallback_matches(s: Seq<char>) -> bool {
    exists|i: int| #[trigger] phone_fallback_match_at(s, i)
}

fn digits_from(v: &Vec<char>, from: usize, to: usize) -> (r: bool)
    requires
        from <= to <= v@.len(),
    ensures
        r == forall|j: int| from <= j < to ==> is_ascii_digit(v@[j]),
{
    let mut i: usize = from;
    while i < to
        invariant
            from <= i <= to <= v@.len(),
            forall|j: int| from <= j < i ==> is_ascii_digit(v@[j]),
        decreases to - i,
    {
        let c = v[i];
        if !('0' <= c && c <= '9') {
            return false;
        }
        i += 1;
    }
    true
}

/// Checks the decimal form of the phone number against the German fallback
/// pattern: `49` followed by nine or ten digits, anywhere in the string.
pub fn is_phone_no_valid_fallback(phone_no: i64) -> (r: bool)
    ensures
        r == phone_fallback_matches(dec_str_i64(phone_no as int)),
{
    let cs = decimal_chars_i64(phone_no);
    let ghost s = dec_str_i64(phone_no as int);
    let n = cs.len();
    if n < 11 {
        proof {
            assert forall|i: int| !(#[trigger] phone_fallback_match_at(s, i)) by {}
        }
        return false;
    }
    let mut i: usize = 0;
    while i <= n - 11
        invariant
            11 <= n,
            0 <= i <= n - 10,
            n == cs@.len(),
            cs@ == s,
            s == dec_str_i64(phone_no as int),
            forall|k: int| 0 <= k < i ==> !(#[trigger] phone_fallback_match_at(s, k)),
        decreases n - i,
    {
        if cs[i] == '4' && cs[i + 1] == '9' {
            if digits_from(&cs, i + 2, i + 11) {
                proof {
                    assert(i + 11 <= s.len());
                    assert(s[i as int] == '4');
                    assert(s[i as int + 1] == '9');
                    assert forall|j: int| i + 2 <= j < i + 11 implies is_ascii_digit(s[j]) by {
                        assert(is_ascii_digit(cs@[j]));
                    }
                    assert(phone_fallback_match_at(s, i as int));
                }
                return true;
            }
        }
        i += 1;
    }
    proof {
        assert forall|k: int| !(#[trigger] phone_fallback_match_at(s, k)) by {
            if 0 <= k < i {
            } else if k >= i {
                assert(k + 11 > n);
            }
        }
    }
    false
}

/// The parsed payload of the external number-verification service: the
/// fields the policy reads.
#[derive(Debug)]
pub struct NumberVerification {
    pub valid: bool,
    pub country_code: String,
}

/// The diagnostic line for a client-error status from the external service.
pub open spec fn unexpected_status_message(status: int) -> Seq<char> {
    "Unexpected status_code: "@ + dec_str_nat(status)
}

/// The outcome of an external phone-verification exchange, from the final
/// HTTP status (after the caller's bounded retries) and the decoded payload
/// of a successful response. Statuses 200-299 count as success and 400-499
/// as client errors, as the HTTP client classifies them.
///
/// On success the number is valid exactly when the service says so and the
/// country is `DE`; a payload that did not decode is a validation error. A
/// client error is surfaced, never downgraded to the local fallback. Any
/// other status falls back to the local pattern check.
pub fn get_valid_phone_no_outcome(
    phone_no: i64,
    status: u16,
    payload: Result<NumberVerification, String>,
) -> (r: Result<bool, Error>)
    ensures
        (200 <= status < 300) ==> (match payload {
            Ok(p) => r == Ok::<bool, Error>(p.valid && p.country_code@ == "DE"@),
            Err(m) => r == Err::<bool, Error>(Error::ReqwestMiddleware(m)),
        }),
        (400 <= status < 500) ==> (r matches Err(e) && e matches Error::ReqwestMiddleware(msg)
            && msg@ == unexpected_status_message(status as int)),
        (status < 200 || (300 <= status < 400) || status >= 500) ==> r == Ok::<bool, Error>(
            phone_fallback_matches(dec_str_i64(phone_no as int)),
        ),
{
    if 200 <= status && status < 300 {
        match payload {
            Ok(p) => {
                let de = "DE".to_owned();
                Ok(p.valid && p.country_code == de)
            },
            Err(m) => Err(Error::ReqwestMiddleware(m)),
        }
    } else if 400 <= status && status < 500 {
        let mut msg = "Unexpected status_code: ".to_owned();
        let digits = decimal_chars_u64(status as u64);
        let mut i: usize = 0;
        while i < digits.len()
            invariant
                i <= digits.len(),
                digits@ == dec_str_nat(status as int),
                msg@ == "Unexpected status_code: "@ + digits@.subrange(0, i as int),
            decreases digits.len() - i,
        {
            push_char(&mut msg, digits[i]);
            proof {
                assert(msg@ =~= "Unexpected status_code: "@ + digits@.subrange(0, i + 1 as int));
            }
            i += 1;
        }
        proof {
            assert(digits@.subrange(0, digits@.len() as int) =~= digits@);
        }
        Err(Error::ReqwestMiddleware(msg))
    } else {
        Ok(is_phone_no_valid_fallback(phone_no))
    }
}

} // verus!

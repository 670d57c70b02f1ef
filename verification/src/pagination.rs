//! Pagination: parsing page number and page size from query-parameter text,
//! and turning them into a (limit, offset) window.

use vstd::prelude::*;

use crate::errors::Error;
use crate::text::{chars_of, dec_str_nat, decimal_chars_u64, string_from_chars};

verus! {

/// Default page number (pages are 1-based).
pub const DEFAULT_PAGE_NO: u32 = 1;

/// Default page size.
pub const DEFAULT_PAGE_SIZE: u32 = 5;

/// Is `c` a decimal digit?
pub open spec fn is_ascii_digit(c: char) -> bool {
    '0' <= c && c <= '9'
}

/// The value of a decimal digit character.
pub open spec fn digit_value(c: char) -> int {
    c as int - '0' as int
}

/// Are all characters of `s` decimal digits?
pub open spec fn all_digits(s: Seq<char>) -> bool {
    forall|i: int| 0 <= i < s.len() ==> is_ascii_digit(s[i])
}

/// The value of a sequence of decimal digits (most significant first).
pub open spec fn numeral_value(s: Seq<char>) -> int
    decreases s.len(),
{
    if s.len() == 0 {
        0
    } else {
        numeral_value(s.drop_last()) * 10 + digit_value(s.last())
    }
}

/// `s` without its optional leading plus sign.
pub open spec fn unsigned_part(s: Seq<char>) -> Seq<char> {
    if s.len() > 0 && s[0] == '+' {
        s.subrange(1, s.len() as int)
    } else {
        s
    }
}

/// Does `s` denote a `u32`: an optional `+`, then one or more decimal digits,
/// with a value that fits?
pub open spec fn is_u32_numeral(s: Seq<char>) -> bool {
    let d = unsigned_part(s);
    &&& d.len() >= 1
    &&& all_digits(d)
    &&& numeral_value(d) <= u32::MAX
}

proof fn lemma_numeral_value_nonneg(s: Seq<char>)
    requires
        all_digits(s),
    ensures
        numeral_value(s) >= 0,
    decreases s.len(),
{
    if s.len() > 0 {
        assert(all_digits(s.drop_last()));
        lemma_numeral_value_nonneg(s.drop_last());
    }
}

/// A longer digit prefix never has a smaller value.
proof fn lemma_numeral_value_monotone(s: Seq<char>, i: int, j: int)
    requires
        all_digits(s),
        0 <= i <= j <= s.len(),
    ensures
        numeral_value(s.take(i)) <= numeral_value(s.take(j)),
    decreases j - i,
{
    if i < j {
        lemma_numeral_value_monotone(s, i, j - 1);
        assert(s.take(j).drop_last() =~= s.take(j - 1));
        assert(all_digits(s.take(j - 1)));
        lemma_numeral_value_nonneg(s.take(j - 1));
    }
}

/// Parses query-parameter text as a non-negative 32-bit integer. Any text
/// that is not such a numeral is a client error carrying the offending text,
/// never a default.
pub fn parse_u32(text: &str) -> (r: Result<u32, Error>)
    ensures
        is_u32_numeral(text@) ==> (r matches Ok(v) && v == numeral_value(unsigned_part(text@))),
        !is_u32_numeral(text@) ==> (r matches Err(e) && e matches Error::StringToU32(m) && m@
            == text@),
{
    let cs = chars_of(text);
    let ghost d: Seq<char> = unsigned_part(text@);
    let mut i: usize = 0;
    if cs.len() > 0 && cs[0] == '+' {
        i = 1;
    }
    let ghost start: int = i as int;
    proof {
        assert(d =~= cs@.subrange(start, cs@.len() as int));
    }
    if i == cs.len() {
        return Err(Error::StringToU32(text.to_owned()));
    }
    let mut acc: u32 = 0;
    while i < cs.len()
        invariant
            0 <= start <= i <= cs@.len(),
            cs@ == text@,
            d == cs@.subrange(start, cs@.len() as int),
            d == unsigned_part(text@),
            all_digits(d.take(i - start)),
            acc == numeral_value(d.take(i - start)),
        decreases cs.len() - i,
    {
        let c = cs[i];
        if !('0' <= c && c <= '9') {
            proof {
                assert(d[i - start] == c);
                assert(!is_ascii_digit(d[i - start]));
                assert(!all_digits(d));
            }
            return Err(Error::StringToU32(text.to_owned()));
        }
        let dv: u32 = (c as u32) - 48;
        proof {
            assert('0' as int == 48);
            assert(dv == digit_value(c));
            assert(d.take(i - start + 1).drop_last() =~= d.take(i - start));
            assert(d.take(i - start + 1).last() == c);
            assert(all_digits(d.take(i - start + 1)));
        }
        let next = match acc.checked_mul(10) {
            Some(x) => x.checked_add(dv),
            None => None,
        };
        match next {
            Some(v) => {
                acc = v;
            },
            None => {
                proof {
                    assert(numeral_value(d.take(i - start + 1)) > u32::MAX);
                    if all_digits(d) {
                        lemma_numeral_value_monotone(d, i - start + 1, d.len() as int);
                        assert(d.take(d.len() as int) =~= d);
                    }
                    assert(!is_u32_numeral(text@));
                }
                return Err(Error::StringToU32(text.to_owned()));
            },
        }
        i += 1;
    }
    proof {
        assert(d.take(d.len() as int) =~= d);
        lemma_numeral_value_nonneg(d);
    }
    Ok(acc)
}

/// The page number to use: the given one, or the default.
pub open spec fn effective_page_no(page_no: Option<u32>) -> int {
    match page_no {
        Some(p) => p as int,
        None => DEFAULT_PAGE_NO as int,
    }
}

/// The page size to use: the given one, or the default.
pub open spec fn effective_page_size(page_size: Option<u32>) -> int {
    match page_size {
        Some(s) => s as int,
        None => DEFAULT_PAGE_SIZE as int,
    }
}

/// The (limit, offset) window for a 1-based page number and a page size:
/// `limit = size`, `offset = (page - 1) * size`.
pub fn get_limit_and_offset(page_no: Option<u32>, page_size: Option<u32>) -> (r: (u32, u32))
    requires
        effective_page_no(page_no) >= 1,
        (effective_page_no(page_no) - 1) * effective_page_size(page_size) <= u32::MAX,
    ensures
        r.0 == effective_page_size(page_size),
        r.1 == (effective_page_no(page_no) - 1) * effective_page_size(page_size),
{
    let page_no: u32 = match page_no {
        Some(p) => p,
        None => DEFAULT_PAGE_NO,
    };
    let page_size: u32 = match page_size {
        Some(s) => s,
        None => DEFAULT_PAGE_SIZE,
    };
    (page_size, (page_no - 1) * page_size)
}

/// As `get_limit_and_offset`, but page number 0 and a window that does not
/// fit in 32 bits are rejected as validation errors rather than wrapping.
pub fn checked_limit_and_offset(page_no: Option<u32>, page_size: Option<u32>) -> (r: Result<
    (u32, u32),
    Error,
>)
    ensures
        ({
            let p = effective_page_no(page_no);
            let s = effective_page_size(page_size);
            &&& (p >= 1 && (p - 1) * s <= u32::MAX) ==> (r matches Ok(w) && w.0 == s && w.1 == (
            p - 1) * s)
            &&& p == 0 ==> (r matches Err(e) && e matches Error::StringToU32(m) && m@ == "0"@)
            &&& (p >= 1 && (p - 1) * s > u32::MAX) ==> (r matches Err(e) && e matches
                Error::StringToU32(m) && m@ == dec_str_nat(p))
        }),
{
    let p: u32 = match page_no {
        Some(p) => p,
        None => DEFAULT_PAGE_NO,
    };
    let s: u32 = match page_size {
        Some(s) => s,
        None => DEFAULT_PAGE_SIZE,
    };
    if p == 0 {
        return Err(Error::StringToU32("0".to_owned()));
    }
    match (p - 1).checked_mul(s) {
        Some(offset) => Ok((s, offset)),
        None => {
            let digits = decimal_chars_u64(p as u64);
            Err(Error::StringToU32(string_from_chars(&digits)))
        },
    }
}

/// Pagination request: 1-based page number and page size, each optional.
#[derive(Debug, Clone, Copy, PartialEq, Eq, Structural)]
pub struct Pagination {
    pub page_no: Option<u32>,
    pub page_size: Option<u32>,
}

/// Extracts the pagination request from the textual query parameters, if
/// present. Text that does not parse as a non-negative integer is a client
/// error carrying the offending text.
pub fn get_pagination(page_no_text: Option<&str>, page_size_text: Option<&str>) -> (r: Result<
    Pagination,
    Error,
>)
    ensures
        ({
            let no_ok = page_no_text matches Some(t) ==> is_u32_numeral(t@);
            let size_ok = page_size_text matches Some(t) ==> is_u32_numeral(t@);
            &&& (no_ok && size_ok) ==> (r matches Ok(p) && (match page_no_text {
                Some(t) => p.page_no matches Some(v) && v == numeral_value(unsigned_part(t@)),
                None => p.page_no is None,
            }) && (match page_size_text {
                Some(t) => p.page_size matches Some(v) && v == numeral_value(unsigned_part(t@)),
                None => p.page_size is None,
            }))
            &&& !no_ok ==> (r matches Err(e) && e matches Error::StringToU32(m)
                && page_no_text matches Some(t) && m@ == t@)
            &&& (no_ok && !size_ok) ==> (r matches Err(e) && e matches Error::StringToU32(m)
                && page_size_text matches Some(t) && m@ == t@)
        }),
{
    let page_no: Option<u32> = match page_no_text {
        Some(t) => Some(parse_u32(t)?),
        None => None,
    };
    let page_size: Option<u32> = match page_size_text {
        Some(t) => Some(parse_u32(t)?),
        None => None,
    };
    Ok(Pagination { page_no, page_size })
}

} // verus!

//! Character-level text utilities shared by the auth, validation and
//! pagination modules: extracting the characters of a string, building a
//! string from characters, and rendering integers in decimal.

use vstd::prelude::*;
use vstd::string::StrSliceExecFns;

verus! {

/// Relies on String::push: appends the given character to the end of the string.
#[verifier::external_body]
pub(crate) fn push_char(s: &mut String, c: char)
    ensures
        final(s)@ == old(s)@.push(c),
{
    s.push(c)
}

/// The characters of `s`, in order, as a vector.
pub fn chars_of(s: &str) -> (r: Vec<char>)
    ensures
        r@ == s@,
{
    let n: usize = s.unicode_len();
    let mut r: Vec<char> = Vec::new();
    let mut i: usize = 0;
    while i < n
        invariant
            i <= n,
            n == s@.len(),
            r@ == s@.subrange(0, i as int),
        decreases n - i,
    {
        let c = s.get_char(i);
        r.push(c);
        proof {
            assert(r@ =~= s@.subrange(0, i + 1 as int));
        }
        i += 1;
    }
    proof {
        assert(r@ =~= s@);
    }
    r
}

/// The string holding exactly the characters of `v`, in order.
pub fn string_from_chars(v: &Vec<char>) -> (r: String)
    ensures
        r@ == v@,
{
    let mut s = String::new();
    let mut i: usize = 0;
    while i < v.len()
        invariant
            i <= v.len(),
            s@ == v@.subrange(0, i as int),
        decreases v.len() - i,
    {
        push_char(&mut s, v[i]);
        proof {
            assert(s@ =~= v@.subrange(0, i + 1 as int));
        }
        i += 1;
    }
    proof {
        assert(s@ =~= v@);
    }
    s
}

/// Does `s` contain the character `c`?
pub open spec fn seq_contains_char(s: Seq<char>, c: char) -> bool {
    exists|i: int| 0 <= i < s.len() && s[i] == c
}

/// Is `i` the first position of `c` in `s`?
pub open spec fn is_first_occurrence(s: Seq<char>, c: char, i: int) -> bool {
    &&& 0 <= i < s.len()
    &&& s[i] == c
    &&& forall|j: int| 0 <= j < i ==> s[j] != c
}

/// The first position of `c` in `s` (meaningful only when `s` contains `c`).
pub open spec fn first_index_of(s: Seq<char>, c: char) -> int {
    choose|i: int| is_first_occurrence(s, c, i)
}

/// When `s` contains `c`, `first_index_of` names its first position.
pub proof fn lemma_first_occurrence_exists(s: Seq<char>, c: char)
    requires
        seq_contains_char(s, c),
    ensures
        is_first_occurrence(s, c, first_index_of(s, c)),
    decreases s.len(),
{
    if s[0] == c {
        assert(is_first_occurrence(s, c, 0));
    } else {
        let t = s.subrange(1, s.len() as int);
        let k = choose|k: int| 0 <= k < s.len() && s[k] == c;
        assert(t[k - 1] == c);
        lemma_first_occurrence_exists(t, c);
        let i = first_index_of(t, c);
        assert forall|j: int| 0 <= j < i + 1 implies s[j] != c by {
            if j > 0 {
                assert(t[j - 1] != c);
            }
        }
        assert(is_first_occurrence(s, c, i + 1));
    }
}

/// A first occurrence is unique.
pub proof fn lemma_first_occurrence_unique(s: Seq<char>, c: char, i: int)
    requires
        is_first_occurrence(s, c, i),
    ensures
        first_index_of(s, c) == i,
{
    assert(seq_contains_char(s, c));
    lemma_first_occurrence_exists(s, c);
    let k = first_index_of(s, c);
    if k < i {
        assert(s[k] != c);
    } else if i < k {
        assert(s[i] != c);
    }
}

/// The first position of `c` in `v`, if the character occurs at all.
pub fn find_char(v: &Vec<char>, c: char) -> (r: Option<usize>)
    ensures
        r matches Some(i) ==> is_first_occurrence(v@, c, i as int) && i == first_index_of(v@, c)
            && seq_contains_char(v@, c),
        r is None ==> !seq_contains_char(v@, c),
{
    let n = v.len();
    let mut i: usize = 0;
    while i < n
        invariant
            i <= n,
            n == v@.len(),
            forall|j: int| 0 <= j < i ==> v@[j] != c,
        decreases n - i,
    {
        if v[i] == c {
            proof {
                assert(is_first_occurrence(v@, c, i as int));
                lemma_first_occurrence_unique(v@, c, i as int);
            }
            return Some(i);
        }
        i += 1;
    }
    None
}

/// The characters of `v` from `from` (inclusive) to `to` (exclusive).
pub fn vec_char_slice(v: &Vec<char>, from: usize, to: usize) -> (r: Vec<char>)
    requires
        from <= to <= v@.len(),
    ensures
        r@ == v@.subrange(from as int, to as int),
{
    let mut r: Vec<char> = Vec::new();
    let mut i: usize = from;
    while i < to
        invariant
            from <= i <= to <= v@.len(),
            r@ == v@.subrange(from as int, i as int),
        decreases to - i,
    {
        r.push(v[i]);
        proof {
            assert(r@ =~= v@.subrange(from as int, i + 1 as int));
        }
        i += 1;
    }
    r
}

/// The character for a decimal digit value.
pub open spec fn digit_char(d: int) -> char {
    if d == 0 {
        '0'
    } else if d == 1 {
        '1'
    } else if d == 2 {
        '2'
    } else if d == 3 {
        '3'
    } else if d == 4 {
        '4'
    } else if d == 5 {
        '5'
    } else if d == 6 {
        '6'
    } else if d == 7 {
        '7'
    } else if d == 8 {
        '8'
    } else {
        '9'
    }
}

/// The decimal numeral of a non-negative integer, without sign or leading
/// zeros (except for the single digit of zero itself).
pub open spec fn dec_str_nat(n: int) -> Seq<char>
    recommends
        n >= 0,
    decreases n,
{
    if n < 10 {
        seq![digit_char(n)]
    } else {
        dec_str_nat(n / 10).push(digit_char(n % 10))
    }
}

/// The decimal form of a signed integer, as `i64::to_string` renders it:
/// a leading `-` for negative values, then the digits of the magnitude.
pub open spec fn dec_str_i64(n: int) -> Seq<char> {
    if n < 0 {
        seq!['-'] + dec_str_nat(-n)
    } else {
        dec_str_nat(n)
    }
}

fn digit_to_char(d: u64) -> (c: char)
    requires
        d < 10,
    ensures
        c == digit_char(d as int),
{
    if d == 0 {
        '0'
    } else if d == 1 {
        '1'
    } else if d == 2 {
        '2'
    } else if d == 3 {
        '3'
    } else if d == 4 {
        '4'
    } else if d == 5 {
        '5'
    } else if d == 6 {
        '6'
    } else if d == 7 {
        '7'
    } else if d == 8 {
        '8'
    } else {
        '9'
    }
}

/// The decimal digits of `m`.
pub fn decimal_chars_u64(m: u64) -> (r: Vec<char>)
    ensures
        r@ == dec_str_nat(m as int),
{
    let ghost m0: int = m as int;
    let mut m: u64 = m;
    let mut digits: Vec<char> = Vec::new();
    while m >= 10
        invariant
            dec_str_nat(m0) == dec_str_nat(m as int) + digits@,
        decreases m,
    {
        let c = digit_to_char(m % 10);
        digits.insert(0, c);
        proof {
            assert(dec_str_nat((m as int) / 10).push(digit_char((m as int) % 10)) =~= dec_str_nat(
                (m as int) / 10,
            ) + seq![digit_char((m as int) % 10)]);
            assert(dec_str_nat((m as int) / 10) + (seq![digit_char((m as int) % 10)]
                + digits@.subrange(1, digits@.len() as int)) =~= (dec_str_nat((m as int) / 10)
                + seq![digit_char((m as int) % 10)]) + digits@.subrange(1, digits@.len() as int));
            assert(digits@ =~= seq![digit_char((m as int) % 10)] + digits@.subrange(
                1,
                digits@.len() as int,
            ));
        }
        m = m / 10;
    }
    let c = digit_to_char(m % 10);
    digits.insert(0, c);
    proof {
        assert(dec_str_nat(m as int) =~= seq![digit_char(m as int)]);
        assert(digits@ =~= dec_str_nat(m as int) + digits@.subrange(1, digits@.len() as int));
        assert(digits@ =~= dec_str_nat(m0));
    }
    digits
}

/// The decimal rendering of `n`, sign included.
pub fn decimal_chars_i64(n: i64) -> (r: Vec<char>)
    ensures
        r@ == dec_str_i64(n as int),
{
    if n >= 0 {
        decimal_chars_u64(n as u64)
    } else {
        let m: u64 = if n == i64::MIN {
            9223372036854775808u64
        } else {
            (-n) as u64
        };
        let mut r = decimal_chars_u64(m);
        r.insert(0, '-');
        proof {
            assert(r@ =~= seq!['-'] + dec_str_nat(m as int));
        }
        r
    }
}

} // verus!

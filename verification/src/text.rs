//! Character-level helpers shared by the lexer, the value model and the
//! program codec: conversions between strings and character vectors, and
//! decimal rendering and parsing.

use vstd::prelude::*;

verus! {

/// Relies on `String::push`: appends exactly the given character.
#[verifier::external_body]
pub fn push_char(s: &mut String, c: char)
    ensures
        final(s)@ == old(s)@.push(c),
{
    s.push(c)
}

/// Relies on `char::from_u32`: returns `Some` exactly for Unicode scalar
/// values, and the returned character has the given code point.
#[verifier::external_body]
pub fn char_from_u32(v: u32) -> (r: Option<char>)
    ensures
        r matches Some(c) ==> c as u32 == v,
        vstd::utf8::is_scalar(v) ==> r is Some,
{
    char::from_u32(v)
}

/// Copies the characters of a string slice into a vector.
pub fn str_to_chars(s: &str) -> (r: Vec<char>)
    ensures
        r@ == s@,
{
    let n = s.unicode_len();
    let mut r: Vec<char> = Vec::new();
    let mut i: usize = 0;
    while i < n
        invariant
            n == s@.len(),
            i <= n,
            r@ == s@.subrange(0, i as int),
        decreases n - i,
    {
        r.push(s.get_char(i));
        i += 1;
        assert(r@ =~= s@.subrange(0, i as int));
    }
    assert(r@ =~= s@);
    r
}

/// Builds a string from a range of a character vector.
pub fn chars_to_string(v: &Vec<char>, from: usize, to: usize) -> (r: String)
    requires
        from <= to <= v@.len(),
    ensures
        r@ == v@.subrange(from as int, to as int),
{
    let mut r = String::new();
    let mut i: usize = from;
    while i < to
        invariant
            from <= i <= to <= v@.len(),
            r@ == v@.subrange(from as int, i as int),
        decreases to - i,
    {
        push_char(&mut r, v[i]);
        i += 1;
        assert(r@ =~= v@.subrange(from as int, i as int));
    }
    r
}

/// Compares two string slices character by character.
pub fn str_eq(a: &str, b: &str) -> (r: bool)
    ensures
        r == (a@ == b@),
{
    let na = a.unicode_len();
    let nb = b.unicode_len();
    if na != nb {
        assert(a@ != b@);
        return false;
    }
    let mut i: usize = 0;
    while i < na
        invariant
            na == a@.len() && na == b@.len(),
            i <= na,
            forall|j: int| 0 <= j < i ==> a@[j] == b@[j],
        decreases na - i,
    {
        if a.get_char(i) != b.get_char(i) {
            assert(a@ != b@);
            return false;
        }
        i += 1;
    }
    assert(a@ =~= b@);
    true
}

/// Whether a character is a decimal digit.
pub open spec fn is_digit(c: char) -> bool {
    '0' <= c && c <= '9'
}

/// The numeric value of a decimal digit.
pub open spec fn digit_value(c: char) -> nat
    recommends
        is_digit(c),
{
    (c as u32 - '0' as u32) as nat
}

/// The decimal digit character for a value below ten.
pub open spec fn digit_char(d: nat) -> char
    recommends
        d < 10,
{
    if d == 0 { '0' } else if d == 1 { '1' } else if d == 2 { '2' } else if d == 3 { '3' }
    else if d == 4 { '4' } else if d == 5 { '5' } else if d == 6 { '6' } else if d == 7 { '7' }
    else if d == 8 { '8' } else { '9' }
}

/// The decimal rendering of a natural number, most significant digit first.
pub open spec fn dec_digits(n: nat) -> Seq<char>
    decreases n,
{
    if n < 10 {
        seq![digit_char(n)]
    } else {
        dec_digits(n / 10).push(digit_char(n % 10))
    }
}

/// The decimal rendering of an integer, with a leading minus sign when negative.
pub open spec fn int_text(n: int) -> Seq<char> {
    if n < 0 {
        seq!['-'] + dec_digits((-n) as nat)
    } else {
        dec_digits(n as nat)
    }
}

fn digit_to_char(d: u64) -> (r: char)
    requires
        d < 10,
    ensures
        r == digit_char(d as nat),
{
    if d == 0 { '0' } else if d == 1 { '1' } else if d == 2 { '2' } else if d == 3 { '3' }
    else if d == 4 { '4' } else if d == 5 { '5' } else if d == 6 { '6' } else if d == 7 { '7' }
    else if d == 8 { '8' } else { '9' }
}

fn push_dec_digits(s: &mut String, n: u64)
    ensures
        final(s)@ == old(s)@ + dec_digits(n as nat),
    decreases n,
{
    if n < 10 {
        push_char(s, digit_to_char(n));
        assert(final(s)@ =~= old(s)@ + dec_digits(n as nat));
    } else {
        push_dec_digits(s, n / 10);
        push_char(s, digit_to_char(n % 10));
        assert(final(s)@ =~= old(s)@ + dec_digits(n as nat));
    }
}

/// Renders an integer in decimal notation.
pub fn int_to_string(n: i64) -> (r: String)
    ensures
        r@ == int_text(n as int),
{
    let mut s = String::new();
    if n < 0 {
        push_char(&mut s, '-');
        let m: u64 = (-(n as i128)) as u64;
        assert(m == -(n as int));
        push_dec_digits(&mut s, m);
        assert(s@ =~= int_text(n as int));
    } else {
        push_dec_digits(&mut s, n as u64);
    }
    s
}

/// The value of a non-empty digit sequence, or `None` if some character is not
/// a digit or the sequence is empty.
pub open spec fn parse_digits(s: Seq<char>) -> Option<nat>
    decreases s.len(),
{
    if s.len() == 0 {
        None
    } else if s.len() == 1 {
        if is_digit(s[0]) {
            Some(digit_value(s[0]))
        } else {
            None
        }
    } else if !is_digit(s.last()) {
        None
    } else {
        match parse_digits(s.drop_last()) {
            None => None,
            Some(v) => Some(v * 10 + digit_value(s.last())),
        }
    }
}

/// The integer denoted by a decimal numeral with an optional minus sign.
pub open spec fn parse_integer(s: Seq<char>) -> Option<int> {
    if s.len() > 0 && s[0] == '-' {
        match parse_digits(s.drop_first()) {
            None => None,
            Some(v) => Some(-(v as int)),
        }
    } else {
        match parse_digits(s) {
            None => None,
            Some(v) => Some(v as int),
        }
    }
}

fn parse_digits_exec(v: &Vec<char>, from: usize, to: usize) -> (r: Option<u64>)
    requires
        from <= to <= v@.len(),
    ensures
        match r {
            Some(x) => parse_digits(v@.subrange(from as int, to as int)) == Some(x as nat),
            None => parse_digits(v@.subrange(from as int, to as int)) is None
                || (exists|x: nat| parse_digits(v@.subrange(from as int, to as int)) == Some(x)
                    && x > u64::MAX),
        },
{
    if from == to {
        assert(v@.subrange(from as int, to as int).len() == 0);
        return None;
    }
    let mut acc: u64 = 0;
    let mut i: usize = from;
    while i < to
        invariant
            from <= i <= to <= v@.len(),
            i > from ==> parse_digits(v@.subrange(from as int, i as int)) == Some(acc as nat),
            i == from ==> acc == 0,
        decreases to - i,
    {
        let c = v[i];
        if !('0' <= c && c <= '9') {
            proof {
                lemma_parse_digits_bad(v@.subrange(from as int, to as int), i - from);
            }
            return None;
        }
        let d: u64 = (c as u32 - 48) as u64;
        assert(d == digit_value(c));
        if acc > (u64::MAX - d) / 10 {
            proof {
                let whole = v@.subrange(from as int, to as int);
                let part = v@.subrange(from as int, i + 1);
                assert(part == whole.subrange(0, i - from + 1));
                if i > from {
                    assert(part.drop_last() =~= v@.subrange(from as int, i as int));
                }
                assert(parse_digits(part) == Some((acc * 10 + d) as nat)) by {
                    assert(part.last() == c);
                }
                lemma_parse_digits_grows(whole, i - from + 1);
            }
            return None;
        }
        let new_acc: u64 = acc * 10 + d;
        proof {
            let part = v@.subrange(from as int, i + 1);
            if i > from {
                assert(part.drop_last() =~= v@.subrange(from as int, i as int));
            }
            assert(part.last() == c);
            assert(parse_digits(part) == Some((acc * 10 + d) as nat));
        }
        acc = new_acc;
        i += 1;
    }
    assert(v@.subrange(from as int, to as int) =~= v@.subrange(from as int, i as int));
    Some(acc)
}

proof fn lemma_parse_digits_bad(s: Seq<char>, k: int)
    requires
        0 <= k < s.len(),
        !is_digit(s[k]),
    ensures
        parse_digits(s) is None,
    decreases s.len(),
{
    if s.len() > 1 && k < s.len() - 1 {
        assert(s.drop_last()[k] == s[k]);
        lemma_parse_digits_bad(s.drop_last(), k);
    }
}

proof fn lemma_parse_digits_grows(s: Seq<char>, k: int)
    requires
        0 < k <= s.len(),
        parse_digits(s.subrange(0, k)) is Some,
    ensures
        parse_digits(s) matches Some(x) ==> x >= parse_digits(s.subrange(0, k)).unwrap(),
    decreases s.len() - k,
{
    if k < s.len() {
        let next = s.subrange(0, k + 1);
        assert(next.drop_last() =~= s.subrange(0, k));
        if is_digit(next.last()) {
            lemma_parse_digits_grows(s, k + 1);
            assert(s.subrange(0, k + 1) == next);
        } else {
            lemma_parse_digits_bad_sub(s, k);
        }
    } else {
        assert(s.subrange(0, k) =~= s);
    }
}

proof fn lemma_parse_digits_bad_sub(s: Seq<char>, k: int)
    requires
        0 <= k < s.len(),
        !is_digit(s[k]),
    ensures
        parse_digits(s) is None,
{
    lemma_parse_digits_bad(s, k);
}

/// The parsed integer of a character sequence when it denotes one that the
/// machine word can hold.
pub open spec fn parse_i64(s: Seq<char>) -> Option<i64> {
    match parse_integer(s) {
        Some(x) => if i64::MIN <= x <= i64::MAX {
            Some(x as i64)
        } else {
            None
        },
        None => None,
    }
}

/// Parses an optionally signed decimal numeral from a character range.
/// Returns `None` when the range is not a numeral or its value does not
/// fit in the machine word.
pub fn parse_integer_exec(v: &Vec<char>, from: usize, to: usize) -> (r: Option<i64>)
    requires
        from <= to <= v@.len(),
    ensures
        r == parse_i64(v@.subrange(from as int, to as int)),
{
    let ghost s = v@.subrange(from as int, to as int);
    if from < to && v[from] == '-' {
        proof {
            assert(s.drop_first() =~= v@.subrange(from + 1, to as int));
        }
        match parse_digits_exec(v, from + 1, to) {
            Some(x) => {
                if x <= i64::MAX as u64 {
                    Some(-(x as i64))
                } else if x == i64::MAX as u64 + 1 {
                    Some(i64::MIN)
                } else {
                    None
                }
            },
            None => {
                proof {
                    match parse_digits(s.drop_first()) {
                        Some(d) => {
                            assert(d > u64::MAX);
                            assert((-(d as int)) < i64::MIN);
                        },
                        None => {},
                    }
                }
                None
            },
        }
    } else {
        proof {
            assert(s =~= v@.subrange(from as int, to as int));
            if s.len() > 0 && s[0] == '-' {
                assert(v@[from as int] == '-');
            }
        }
        match parse_digits_exec(v, from, to) {
            Some(x) => {
                if x <= i64::MAX as u64 {
                    Some(x as i64)
                } else {
                    None
                }
            },
            None => {
                proof {
                    match parse_digits(s) {
                        Some(d) => {
                            assert(d > u64::MAX);
                            assert(d > i64::MAX);
                        },
                        None => {},
                    }
                }
                None
            },
        }
    }
}

} // verus!

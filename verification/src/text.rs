//! Character-level helpers: converting strings to character vectors,
//! parsing bounded decimal numbers, and rendering numbers as decimal text.

use vstd::prelude::*;
use vstd::std_specs::iter::IteratorSpec;
use vstd::string::StringExecFns;

verus! {

broadcast use vstd::string::axiom_spec_iter, vstd::string::next_postcondition;

/// Largest value accepted when parsing a trailing slot number.
pub const MAX_SLOT: u32 = 2147483647;

pub open spec fn spec_digit_char(d: int) -> char {
    if d == 0 {
        '0'
    } else if d == 1 {
        '1'
    } else if d == 2 {
        '2'
    } else if d == 3 {
        '3'
    } else if d == 4 {
        '4'
    } else if d == 5 {
        '5'
    } else if d == 6 {
        '6'
    } else if d == 7 {
        '7'
    } else if d == 8 {
        '8'
    } else {
        '9'
    }
}

pub open spec fn spec_char_digit(c: char) -> int {
    if c == '0' {
        0
    } else if c == '1' {
        1
    } else if c == '2' {
        2
    } else if c == '3' {
        3
    } else if c == '4' {
        4
    } else if c == '5' {
        5
    } else if c == '6' {
        6
    } else if c == '7' {
        7
    } else if c == '8' {
        8
    } else if c == '9' {
        9
    } else {
        -1
    }
}

pub open spec fn is_digit(c: char) -> bool {
    spec_char_digit(c) >= 0
}

pub open spec fn all_digits(s: Seq<char>) -> bool {
    forall|i: int| 0 <= i < s.len() ==> is_digit(#[trigger] s[i])
}

/// The number denoted by a sequence of decimal digits, most significant first.
pub open spec fn digits_value(s: Seq<char>) -> int
    decreases s.len(),
{
    if s.len() == 0 {
        0
    } else {
        digits_value(s.drop_last()) * 10 + spec_char_digit(s.last())
    }
}

/// A nonempty all-digit sequence whose value is at most `max` parses to its
/// value; anything else does not parse.
pub open spec fn spec_parse_bounded(s: Seq<char>, max: u32) -> Option<u32> {
    if s.len() > 0 && all_digits(s) && digits_value(s) <= max {
        Some(digits_value(s) as u32)
    } else {
        None
    }
}

/// Decimal rendering of a number, without sign or leading zeros.
pub open spec fn spec_dec(n: nat) -> Seq<char>
    decreases n,
{
    if n < 10 {
        seq![spec_digit_char(n as int)]
    } else {
        spec_dec(n / 10).push(spec_digit_char((n % 10) as int))
    }
}

pub proof fn lemma_digits_value_nonneg(s: Seq<char>)
    requires
        all_digits(s),
    ensures
        digits_value(s) >= 0,
    decreases s.len(),
{
    if s.len() > 0 {
        assert(all_digits(s.drop_last())) by {
            assert(forall|i: int|
                0 <= i < s.drop_last().len() ==> s.drop_last()[i] == #[trigger] s[i]);
        }
        lemma_digits_value_nonneg(s.drop_last());
    }
}

pub proof fn lemma_digits_value_snoc(s: Seq<char>, i: int)
    requires
        0 <= i < s.len(),
    ensures
        digits_value(s.subrange(0, i + 1)) == digits_value(s.subrange(0, i)) * 10
            + spec_char_digit(s[i]),
{
    let t = s.subrange(0, i + 1);
    assert(t.drop_last() =~= s.subrange(0, i));
    assert(t.last() == s[i]);
}

pub proof fn lemma_digits_value_monotone(s: Seq<char>, i: int)
    requires
        0 <= i <= s.len(),
        all_digits(s),
    ensures
        digits_value(s) >= digits_value(s.subrange(0, i)),
    decreases s.len() - i,
{
    if i == s.len() {
        assert(s.subrange(0, i) =~= s);
    } else {
        lemma_digits_value_snoc(s, i);
        assert(all_digits(s.subrange(0, i))) by {
            assert(forall|j: int|
                0 <= j < s.subrange(0, i).len() ==> s.subrange(0, i)[j] == #[trigger] s[j]);
        }
        lemma_digits_value_nonneg(s.subrange(0, i));
        lemma_digits_value_monotone(s, i + 1);
    }
}

/// Index of the first occurrence of `sep` in `s`, or the length of `s` when
/// `sep` does not occur.
pub open spec fn first_index_of(s: Seq<char>, sep: char) -> int
    decreases s.len(),
{
    if s.len() == 0 {
        0
    } else {
        let r = first_index_of(s.drop_last(), sep);
        if r < s.len() - 1 {
            r
        } else if s.last() == sep {
            s.len() - 1
        } else {
            s.len() as int
        }
    }
}

/// Index just after the last occurrence of `sep` in `s`, or 0 when `sep`
/// does not occur.
pub open spec fn after_last_index_of(s: Seq<char>, sep: char) -> int
    decreases s.len(),
{
    if s.len() == 0 {
        0
    } else if s.last() == sep {
        s.len() as int
    } else {
        after_last_index_of(s.drop_last(), sep)
    }
}

/// Index of the first occurrence of `sep` in `chars`, or the length when
/// `sep` does not occur.
pub fn find_first_index(chars: &Vec<char>, sep: char) -> (r: usize)
    ensures
        r == first_index_of(chars@, sep),
        0 <= r <= chars@.len(),
{
    let mut fi: usize = 0;
    let mut i: usize = 0;
    while i < chars.len()
        invariant
            0 <= i <= chars@.len(),
            fi <= i,
            fi == first_index_of(chars@.subrange(0, i as int), sep),
        decreases chars@.len() - i,
    {
        proof {
            assert(chars@.subrange(0, i as int + 1).drop_last() =~= chars@.subrange(0, i as int));
            assert(chars@.subrange(0, i as int + 1).last() == chars@[i as int]);
        }
        if fi == i && chars[i] != sep {
            fi = i + 1;
        }
        i += 1;
    }
    assert(chars@.subrange(0, i as int) =~= chars@);
    fi
}

/// Index just after the last occurrence of `sep` in `chars`, or 0 when
/// `sep` does not occur.
pub fn find_after_last(chars: &Vec<char>, sep: char) -> (r: usize)
    ensures
        r == after_last_index_of(chars@, sep),
        0 <= r <= chars@.len(),
{
    let mut cut: usize = 0;
    let mut i: usize = 0;
    while i < chars.len()
        invariant
            0 <= i <= chars@.len(),
            cut <= i,
            cut == after_last_index_of(chars@.subrange(0, i as int), sep),
        decreases chars@.len() - i,
    {
        proof {
            assert(chars@.subrange(0, i as int + 1).drop_last() =~= chars@.subrange(0, i as int));
            assert(chars@.subrange(0, i as int + 1).last() == chars@[i as int]);
        }
        if chars[i] == sep {
            cut = i + 1;
        }
        i += 1;
    }
    assert(chars@.subrange(0, i as int) =~= chars@);
    cut
}

/// Copies the characters of `chars` between `from` and `to`.
pub fn copy_range(chars: &Vec<char>, from: usize, to: usize) -> (r: Vec<char>)
    requires
        0 <= from <= to <= chars@.len(),
    ensures
        r@ == chars@.subrange(from as int, to as int),
{
    let mut r: Vec<char> = Vec::new();
    let mut j: usize = from;
    while j < to
        invariant
            from <= j <= to <= chars@.len(),
            r@ == chars@.subrange(from as int, j as int),
        decreases to - j,
    {
        r.push(chars[j]);
        proof {
            assert(chars@.subrange(from as int, j as int + 1) =~= chars@.subrange(
                from as int,
                j as int,
            ).push(chars@[j as int]));
        }
        j += 1;
    }
    r
}

pub proof fn lemma_parse_bounded_bound(s: Seq<char>, max: u32)
    ensures
        match spec_parse_bounded(s, max) {
            Some(v) => v <= max,
            None => true,
        },
{
    if s.len() > 0 && all_digits(s) && digits_value(s) <= max {
        lemma_digits_value_nonneg(s);
    }
}

/// The digit a character stands for, if any.
pub fn char_digit(c: char) -> (r: Option<u8>)
    ensures
        match r {
            Some(d) => is_digit(c) && d == spec_char_digit(c),
            None => !is_digit(c),
        },
{
    if c == '0' {
        Some(0)
    } else if c == '1' {
        Some(1)
    } else if c == '2' {
        Some(2)
    } else if c == '3' {
        Some(3)
    } else if c == '4' {
        Some(4)
    } else if c == '5' {
        Some(5)
    } else if c == '6' {
        Some(6)
    } else if c == '7' {
        Some(7)
    } else if c == '8' {
        Some(8)
    } else if c == '9' {
        Some(9)
    } else {
        None
    }
}

/// Parses a decimal number no greater than `max` from the whole of `s`.
pub fn parse_bounded(s: &Vec<char>, max: u32) -> (r: Option<u32>)
    ensures
        r == spec_parse_bounded(s@, max),
{
    if s.len() == 0 {
        return None;
    }
    let mut value: u64 = 0;
    let mut i: usize = 0;
    while i < s.len()
        invariant
            0 <= i <= s@.len(),
            s@.len() > 0,
            all_digits(s@.subrange(0, i as int)),
            value == digits_value(s@.subrange(0, i as int)),
            value <= max,
        decreases s@.len() - i,
    {
        match char_digit(s[i]) {
            None => {
                assert(!all_digits(s@));
                return None;
            },
            Some(d) => {
                proof {
                    lemma_digits_value_snoc(s@, i as int);
                }
                let next: u64 = value * 10 + d as u64;
                if next > max as u64 {
                    proof {
                        if all_digits(s@) {
                            lemma_digits_value_monotone(s@, i as int + 1);
                        }
                    }
                    return None;
                }
                value = next;
            },
        }
        i += 1;
    }
    assert(s@.subrange(0, i as int) =~= s@);
    Some(value as u32)
}

/// The characters of a string, in order.
pub fn chars_vec(s: &str) -> (r: Vec<char>)
    ensures
        r@ == s@,
{
    let mut it = s.chars();
    let mut r: Vec<char> = Vec::new();
    loop
        invariant
            it.obeys_prophetic_iter_laws(),
            it.decrease() is Some,
            r@ + it.remaining() == s@,
        ensures
            r@ == s@,
        decreases it.decrease().unwrap(),
    {
        match it.next() {
            Some(c) => {
                r.push(c);
            },
            None => {
                assert(r@ =~= s@);
                break ;
            },
        }
    }
    r
}

/// Whether two string slices hold the same characters.
pub fn str_eq(a: &str, b: &str) -> (r: bool)
    ensures
        r == (a@ == b@),
{
    let x = a.to_owned();
    let y = b.to_owned();
    x.eq(&y)
}

/// Appends a single decimal digit to `s`.
pub fn push_digit(s: &mut String, d: u8)
    requires
        d < 10,
    ensures
        final(s)@ == old(s)@ + seq![spec_digit_char(d as int)],
{
    if d == 0 {
        proof {
            reveal_strlit("0");
        }
        s.append("0");
    } else if d == 1 {
        proof {
            reveal_strlit("1");
        }
        s.append("1");
    } else if d == 2 {
        proof {
            reveal_strlit("2");
        }
        s.append("2");
    } else if d == 3 {
        proof {
            reveal_strlit("3");
        }
        s.append("3");
    } else if d == 4 {
        proof {
            reveal_strlit("4");
        }
        s.append("4");
    } else if d == 5 {
        proof {
            reveal_strlit("5");
        }
        s.append("5");
    } else if d == 6 {
        proof {
            reveal_strlit("6");
        }
        s.append("6");
    } else if d == 7 {
        proof {
            reveal_strlit("7");
        }
        s.append("7");
    } else if d == 8 {
        proof {
            reveal_strlit("8");
        }
        s.append("8");
    } else {
        proof {
            reveal_strlit("9");
        }
        s.append("9");
    }
    assert(s@ =~= old(s)@ + seq![spec_digit_char(d as int)]);
}

/// Appends the decimal rendering of `n` to `s`.
pub fn push_decimal(s: &mut String, n: u32)
    ensures
        final(s)@ == old(s)@ + spec_dec(n as nat),
    decreases n,
{
    if n >= 10 {
        push_decimal(s, n / 10);
        push_digit(s, (n % 10) as u8);
        assert(s@ =~= old(s)@ + spec_dec(n as nat));
    } else {
        push_digit(s, n as u8);
    }
}

} // verus!

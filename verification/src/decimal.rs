//! Decimal text of integers: writing them out and reading them back.

use vstd::prelude::*;
use crate::text::chars_of;

verus! {

/// The character of the decimal digit `d`.
pub open spec fn digit_char(d: nat) -> char {
    (d + 48) as char
}

/// Whether `c` is one of `0`..`9`.
pub open spec fn is_digit(c: char) -> bool {
    '0' <= c && c <= '9'
}

/// The decimal digits of `n`, most significant first, without leading
/// zeros (`0` is written `0`).
pub open spec fn digits_of(n: nat) -> Seq<char>
    decreases n,
{
    if n < 10 {
        seq![digit_char(n)]
    } else {
        digits_of(n / 10).push(digit_char(n % 10))
    }
}

/// The decimal text of `i`, with a leading `-` when it is negative.
pub open spec fn int_text(i: int) -> Seq<char> {
    if i < 0 {
        seq!['-'] + digits_of((-i) as nat)
    } else {
        digits_of(i as nat)
    }
}

/// Every character of `s` is a decimal digit.
pub open spec fn all_digits(s: Seq<char>) -> bool {
    forall|i: int| 0 <= i < s.len() ==> is_digit(#[trigger] s[i])
}

/// The number that a string of decimal digits stands for.
pub open spec fn digits_value(s: Seq<char>) -> nat
    decreases s.len(),
{
    if s.len() == 0 {
        0
    } else {
        digits_value(s.drop_last()) * 10 + ((s.last() as nat) - 48) as nat
    }
}

/// The integer that `s` spells: one or more decimal digits, with an
/// optional leading `-`; `None` for any other text.
pub open spec fn parse_int_text(s: Seq<char>) -> Option<int> {
    if s.len() > 1 && s[0] == '-' && all_digits(s.drop_first()) {
        Some(-(digits_value(s.drop_first()) as int))
    } else if s.len() > 0 && all_digits(s) {
        Some(digits_value(s) as int)
    } else {
        None
    }
}

/// The `i64` that `s` spells, when it spells an integer in `i64`'s range.
pub open spec fn parse_i64_text(s: Seq<char>) -> Option<i64> {
    match parse_int_text(s) {
        Some(v) => if i64::MIN <= v <= i64::MAX {
            Some(v as i64)
        } else {
            None
        },
        None => None,
    }
}

pub proof fn lemma_digits_of(n: nat)
    ensures
        all_digits(digits_of(n)),
        digits_of(n).len() > 0,
        digits_value(digits_of(n)) == n,
        digits_of(n)[0] != '-',
    decreases n,
{
    let c = digit_char(n % 10);
    assert(c as nat == n % 10 + 48);
    if n < 10 {
        let s = digits_of(n);
        assert(n % 10 == n);
        assert(s.drop_last() =~= Seq::<char>::empty());
        assert(s.last() == c);
        assert(digits_value(s) == digits_value(s.drop_last()) * 10 + ((s.last() as nat) - 48) as nat);
    } else {
        lemma_digits_of(n / 10);
        let s = digits_of(n);
        assert(s.drop_last() =~= digits_of(n / 10));
        assert(n == (n / 10) * 10 + n % 10);
        assert(s.last() == c);
        assert(digits_value(s) == digits_value(s.drop_last()) * 10 + ((s.last() as nat) - 48) as nat);
        assert forall|i: int| 0 <= i < s.len() implies is_digit(#[trigger] s[i]) by {
            if i < s.len() - 1 {
                assert(s[i] == digits_of(n / 10)[i]);
            }
        }
    }
}

pub proof fn lemma_digits_value_prefix(s: Seq<char>, k: int)
    requires
        0 <= k <= s.len(),
        all_digits(s),
    ensures
        digits_value(s.take(k)) <= digits_value(s),
    decreases s.len() - k,
{
    if k < s.len() {
        let t = s.drop_last();
        assert(all_digits(t)) by {
            assert forall|i: int| 0 <= i < t.len() implies is_digit(#[trigger] t[i]) by {
                assert(t[i] == s[i]);
            }
        }
        lemma_digits_value_prefix(t, k);
        assert(t.take(k) =~= s.take(k));
    } else {
        assert(s.take(k) =~= s);
    }
}

/// Written-out integers read back as themselves.
pub proof fn law_int_text_round_trip(i: int)
    ensures
        parse_int_text(int_text(i)) == Some(i),
{
    if i < 0 {
        let d = digits_of((-i) as nat);
        lemma_digits_of((-i) as nat);
        let s = int_text(i);
        assert(s.drop_first() =~= d);
    } else {
        lemma_digits_of(i as nat);
    }
}

/// The character of the decimal digit `d`.
pub fn digit(d: u64) -> (c: char)
    requires
        d < 10,
    ensures
        c == digit_char(d as nat),
{
    if d == 0 {
        '0'
    } else if d == 1 {
        '1'
    } else if d == 2 {
        '2'
    } else if d == 3 {
        '3'
    } else if d == 4 {
        '4'
    } else if d == 5 {
        '5'
    } else if d == 6 {
        '6'
    } else if d == 7 {
        '7'
    } else if d == 8 {
        '8'
    } else {
        '9'
    }
}

/// The decimal digits of `n`.
pub fn digits(n: u64) -> (v: Vec<char>)
    ensures
        v@ == digits_of(n as nat),
    decreases n,
{
    if n < 10 {
        let mut v = Vec::new();
        v.push(digit(n));
        assert(v@ =~= digits_of(n as nat));
        v
    } else {
        let mut v = digits(n / 10);
        v.push(digit(n % 10));
        v
    }
}

/// The decimal text of `x`.
pub fn int_to_string(x: i64) -> (s: String)
    ensures
        s@ == int_text(x as int),
{
    let mut v: Vec<char> = Vec::new();
    let magnitude: u64 = if x < 0 {
        v.push('-');
        ((-(x as i128)) as u64)
    } else {
        x as u64
    };
    let d = digits(magnitude);
    let mut i: usize = 0;
    let ghost start = v@;
    while i < d.len()
        invariant
            i <= d@.len(),
            v@ == start + d@.take(i as int),
        decreases d@.len() - i,
    {
        v.push(d[i]);
        assert(d@.take(i + 1) =~= d@.take(i as int).push(d@[i as int]));
        i = i + 1;
    }
    assert(d@.take(d@.len() as int) =~= d@);
    assert(v@ =~= int_text(x as int));
    crate::text::string_of(&v, 0, v.len())
}

/// The value of decimal digits `s[lo..]`, or `None` when it exceeds `bound`.
fn digits_value_upto(s: &Vec<char>, lo: usize, bound: u64) -> (r: Option<u64>)
    requires
        lo <= s@.len(),
        all_digits(s@.skip(lo as int)),
        bound >= 9,
    ensures
        r matches Some(v) ==> v == digits_value(s@.skip(lo as int)) && v <= bound,
        r is None ==> digits_value(s@.skip(lo as int)) > bound,
{
    let ghost t = s@.skip(lo as int);
    let mut acc: u64 = 0;
    let mut i = lo;
    assert(t.take(0) =~= Seq::<char>::empty());
    while i < s.len()
        invariant
            lo <= i <= s@.len(),
            t == s@.skip(lo as int),
            all_digits(t),
            acc == digits_value(t.take(i - lo)),
            acc <= bound,
            bound >= 9,
        decreases s@.len() - i,
    {
        let c = s[i];
        assert(t[i - lo] == c);
        let d = (c as u32 - 48) as u64;
        let ghost pre = t.take(i - lo);
        let ghost next = t.take(i - lo + 1);
        assert(next.drop_last() =~= pre);
        assert(next.last() == c);
        if acc > (bound - d) / 10 {
            assert(digits_value(next) > bound) by (nonlinear_arith)
                requires
                    digits_value(next) == acc * 10 + d,
                    acc > (bound - d) / 10,
                    d <= 9,
            ;
            proof {
                lemma_digits_value_prefix(t, i - lo + 1);
            }
            return None;
        }
        assert(acc * 10 + d <= bound) by (nonlinear_arith)
            requires
                acc <= (bound - d) / 10,
                d <= 9,
        ;
        acc = acc * 10 + d;
        i = i + 1;
    }
    assert(t.take(i - lo) =~= t);
    Some(acc)
}

/// Whether `s[lo..]` holds only decimal digits.
fn digits_only(s: &Vec<char>, lo: usize) -> (b: bool)
    requires
        lo <= s@.len(),
    ensures
        b == all_digits(s@.skip(lo as int)),
{
    let mut i = lo;
    while i < s.len()
        invariant
            lo <= i <= s@.len(),
            forall|j: int| lo <= j < i ==> is_digit(s@[j]),
        decreases s@.len() - i,
    {
        if !('0' <= s[i] && s[i] <= '9') {
            assert(!is_digit(s@.skip(lo as int)[i - lo]));
            return false;
        }
        i = i + 1;
    }
    assert forall|j: int| 0 <= j < s@.skip(lo as int).len() implies is_digit(
        #[trigger] s@.skip(lo as int)[j],
    ) by {
        assert(s@.skip(lo as int)[j] == s@[lo + j]);
    }
    true
}

/// The `i64` that `text` spells: an optional `-` and one or more decimal
/// digits, within `i64`'s range.
pub fn parse_i64(text: &str) -> (r: Option<i64>)
    ensures
        r == parse_i64_text(text@),
{
    let s = chars_of(text);
    if s.len() > 1 && s[0] == '-' && digits_only(&s, 1) {
        assert(s@.skip(1) =~= s@.drop_first());
        match digits_value_upto(&s, 1, 9223372036854775808u64) {
            Some(v) => {
                if v == 9223372036854775808u64 {
                    Some(i64::MIN)
                } else {
                    Some(-(v as i64))
                }
            },
            None => None,
        }
    } else if s.len() > 0 && digits_only(&s, 0) {
        assert(s@.skip(0) =~= s@);
        match digits_value_upto(&s, 0, 9223372036854775807u64) {
            Some(v) => Some(v as i64),
            None => None,
        }
    } else {
        if s.len() > 1 && s[0] == '-' {
            assert(s@.skip(1) =~= s@.drop_first());
        }
        if s.len() > 0 {
            assert(s@.skip(0) =~= s@);
        }
        None
    }
}

} // verus!

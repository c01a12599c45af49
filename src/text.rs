//! Decimal numerals and conversions between strings and character sequences.

use vstd::prelude::*;
use vstd::string::StrSliceExecFns;

verus! {

/// The decimal digit character for `d` (0 to 9).
pub open spec fn digit_char(d: int) -> char {
    if d == 0 {
        '0'
    } else if d == 1 {
        '1'
    } else if d == 2 {
        '2'
    } else if d == 3 {
        '3'
    } else if d == 4 {
        '4'
    } else if d == 5 {
        '5'
    } else if d == 6 {
        '6'
    } else if d == 7 {
        '7'
    } else if d == 8 {
        '8'
    } else {
        '9'
    }
}

pub open spec fn is_digit(c: char) -> bool {
    '0' <= c <= '9'
}

/// The value of a digit character.
pub open spec fn digit_value(c: char) -> int {
    c as int - '0' as int
}

pub open spec fn all_digits(s: Seq<char>) -> bool {
    forall|i: int| 0 <= i < s.len() ==> is_digit(#[trigger] s[i])
}

/// The number that a string of digits denotes, most significant digit first.
pub open spec fn digits_value(s: Seq<char>) -> nat
    decreases s.len(),
{
    if s.len() == 0 {
        0
    } else {
        (10 * digits_value(s.drop_last()) + digit_value(s.last())) as nat
    }
}

/// The shortest decimal numeral of `n`.
pub open spec fn decimal(n: nat) -> Seq<char>
    decreases n,
{
    if n < 10 {
        seq![digit_char(n as int)]
    } else {
        decimal(n / 10).push(digit_char((n % 10) as int))
    }
}

/// The decimal numeral of `n`, with a leading zero below ten.
pub open spec fn pad2(n: nat) -> Seq<char> {
    if n < 10 {
        seq!['0', digit_char(n as int)]
    } else {
        decimal(n)
    }
}

/// The decimal numeral of `i`, with a minus sign when negative.
pub open spec fn signed_decimal(i: int) -> Seq<char> {
    if i < 0 {
        seq!['-'] + decimal((-i) as nat)
    } else {
        decimal(i as nat)
    }
}

pub proof fn lemma_digit_char(d: int)
    requires
        0 <= d <= 9,
    ensures
        is_digit(digit_char(d)),
        digit_value(digit_char(d)) == d,
{
}

pub proof fn lemma_decimal(n: nat)
    ensures
        decimal(n).len() >= 1,
        all_digits(decimal(n)),
        digits_value(decimal(n)) == n,
    decreases n,
{
    if n < 10 {
        lemma_digit_char(n as int);
        assert(decimal(n).drop_last() =~= Seq::<char>::empty());
        assert(digits_value(Seq::<char>::empty()) == 0);
    } else {
        lemma_decimal(n / 10);
        lemma_digit_char((n % 10) as int);
        let s = decimal(n);
        assert(s.drop_last() =~= decimal(n / 10));
        assert(digits_value(s) == 10 * (n / 10) + n % 10);
        assert forall|i: int| 0 <= i < s.len() implies is_digit(#[trigger] s[i]) by {
            if i < s.len() - 1 {
                assert(s[i] == decimal(n / 10)[i]);
            }
        }
    }
}

pub proof fn lemma_pad2(n: nat)
    requires
        n < 100,
    ensures
        pad2(n).len() == 2,
        all_digits(pad2(n)),
        digits_value(pad2(n)) == n,
{
    if n < 10 {
        lemma_digit_char(n as int);
        lemma_digit_char(0);
        let s = pad2(n);
        assert(s.drop_last() =~= seq!['0']);
        assert(seq!['0'].drop_last() =~= Seq::<char>::empty());
        assert(digits_value(Seq::<char>::empty()) == 0);
        assert(digits_value(seq!['0']) == 0);
    } else {
        lemma_decimal(n);
        lemma_decimal(n / 10);
        assert(decimal(n / 10) =~= seq![digit_char((n / 10) as int)]);
    }
}

/// The digit character for `d`.
pub fn digit_to_char(d: u64) -> (c: char)
    requires
        d <= 9,
    ensures
        c == digit_char(d as int),
{
    if d == 0 {
        '0'
    } else if d == 1 {
        '1'
    } else if d == 2 {
        '2'
    } else if d == 3 {
        '3'
    } else if d == 4 {
        '4'
    } else if d == 5 {
        '5'
    } else if d == 6 {
        '6'
    } else if d == 7 {
        '7'
    } else if d == 8 {
        '8'
    } else {
        '9'
    }
}

/// Appends the decimal numeral of `n` to `out`.
pub fn push_decimal(n: u64, out: &mut Vec<char>)
    ensures
        final(out)@ == old(out)@ + decimal(n as nat),
    decreases n,
{
    if n >= 10 {
        push_decimal(n / 10, out);
    }
    out.push(digit_to_char(n % 10));
    proof {
        if n < 10 {
            assert(decimal(n as nat) =~= seq![digit_char(n as int)]);
        }
    }
    assert(out@ =~= old(out)@ + decimal(n as nat));
}

/// Appends the numeral of `n` to `out`, with a leading zero below ten.
pub fn push_pad2(n: u64, out: &mut Vec<char>)
    ensures
        final(out)@ == old(out)@ + pad2(n as nat),
{
    if n < 10 {
        out.push('0');
        out.push(digit_to_char(n));
        assert(out@ =~= old(out)@ + pad2(n as nat));
    } else {
        push_decimal(n, out);
    }
}

/// Appends the numeral of `i` to `out`, with a minus sign when negative.
pub fn push_signed_decimal(i: i64, out: &mut Vec<char>)
    ensures
        final(out)@ == old(out)@ + signed_decimal(i as int),
{
    if i < 0 {
        out.push('-');
        let m: u64 = if i == i64::MIN {
            9223372036854775808u64
        } else {
            (-i) as u64
        };
        push_decimal(m, out);
        assert(out@ =~= old(out)@ + signed_decimal(i as int));
    } else {
        push_decimal(i as u64, out);
    }
}

/// Appends every character of `s` to `out`.
pub fn push_str(s: &str, out: &mut Vec<char>)
    ensures
        final(out)@ == old(out)@ + s@,
{
    let n = s.unicode_len();
    let mut i: usize = 0;
    while i < n
        invariant
            n == s@.len(),
            i <= n,
            out@ == old(out)@ + s@.take(i as int),
        decreases n - i,
    {
        let c = s.get_char(i);
        out.push(c);
        i = i + 1;
        assert(s@.take(i as int) =~= s@.take(i - 1 as int).push(c));
        assert(out@ =~= old(out)@ + s@.take(i as int));
    }
    assert(s@.take(n as int) =~= s@);
}

/// The characters of `s`.
pub fn chars_of(s: &str) -> (r: Vec<char>)
    ensures
        r@ == s@,
{
    let mut r: Vec<char> = Vec::new();
    push_str(s, &mut r);
    assert(r@ =~= s@);
    r
}

/// Relies on std's `FromIterator<char>` for `String`: the string holds the
/// given characters in order.
#[verifier::external_body]
pub fn string_from_chars(v: &Vec<char>) -> (r: String)
    ensures
        r@ == v@,
{
    v.iter().collect()
}

/// The digits that an unsigned numeral holds after an optional `+` sign.
pub open spec fn unsigned_digits(s: Seq<char>) -> Seq<char> {
    if s.len() > 0 && s[0] == '+' {
        s.skip(1)
    } else {
        s
    }
}

/// The value of a `u32` numeral as std's integer parsing reads it: an optional
/// `+`, then at least one digit, and a value that fits.
pub open spec fn parse_u32_spec(s: Seq<char>) -> Option<u32> {
    let d = unsigned_digits(s);
    if d.len() > 0 && all_digits(d) && digits_value(d) <= u32::MAX {
        Some(digits_value(d) as u32)
    } else {
        None
    }
}

/// The value of an `i32` numeral as std's integer parsing reads it: an optional
/// sign, then at least one digit, and a value that fits.
pub open spec fn parse_i32_spec(s: Seq<char>) -> Option<i32> {
    if s.len() > 0 && s[0] == '-' {
        let d = s.skip(1);
        if d.len() > 0 && all_digits(d) && digits_value(d) <= 0x8000_0000 {
            Some((-(digits_value(d) as int)) as i32)
        } else {
            None
        }
    } else {
        let d = unsigned_digits(s);
        if d.len() > 0 && all_digits(d) && digits_value(d) <= i32::MAX {
            Some(digits_value(d) as i32)
        } else {
            None
        }
    }
}

/// A bound above every value that the numerals of this crate may take.
pub const VALUE_CAP: u64 = 0x2_0000_0000;

pub open spec fn capped(x: nat) -> nat {
    if x < VALUE_CAP {
        x
    } else {
        VALUE_CAP as nat
    }
}

/// The value of the digits of `s` from `start` on, capped at `VALUE_CAP`;
/// `None` where one of them is no digit.
fn capped_digits_value(s: &Vec<char>, start: usize) -> (r: Option<u64>)
    requires
        start <= s@.len(),
    ensures
        r is Some <==> all_digits(s@.skip(start as int)),
        r is Some ==> r == Some(capped(digits_value(s@.skip(start as int))) as u64),
{
    let mut v: u64 = 0;
    let mut i: usize = start;
    assert(s@.subrange(start as int, start as int) =~= Seq::<char>::empty());
    while i < s.len()
        invariant
            start <= i <= s@.len(),
            all_digits(s@.subrange(start as int, i as int)),
            v == capped(digits_value(s@.subrange(start as int, i as int))),
        decreases s@.len() - i,
    {
        let c = s[i];
        if !('0' <= c && c <= '9') {
            assert(s@.skip(start as int)[i - start] == c);
            return None;
        }
        let d = (c as u32 - '0' as u32) as u64;
        let ghost prev = s@.subrange(start as int, i as int);
        let ghost next = s@.subrange(start as int, i + 1 as int);
        assert(next.drop_last() =~= prev);
        assert(next.last() == c);
        v = if 10 * v + d < VALUE_CAP {
            10 * v + d
        } else {
            VALUE_CAP
        };
        i = i + 1;
        assert forall|k: int| 0 <= k < next.len() implies is_digit(#[trigger] next[k]) by {
            if k < prev.len() {
                assert(next[k] == prev[k]);
            }
        }
    }
    assert(s@.subrange(start as int, s@.len() as int) =~= s@.skip(start as int));
    Some(v)
}

/// Reads a `u32` numeral as std's integer parsing does.
pub fn parse_u32(s: &Vec<char>) -> (r: Option<u32>)
    ensures
        r == parse_u32_spec(s@),
{
    let start: usize = if s.len() > 0 && s[0] == '+' {
        1
    } else {
        0
    };
    assert(s@.skip(start as int) =~= unsigned_digits(s@));
    if start == s.len() {
        return None;
    }
    match capped_digits_value(s, start) {
        Some(v) => {
            if v <= u32::MAX as u64 {
                Some(v as u32)
            } else {
                None
            }
        },
        None => None,
    }
}

/// Reads an `i32` numeral as std's integer parsing does.
pub fn parse_i32(s: &Vec<char>) -> (r: Option<i32>)
    ensures
        r == parse_i32_spec(s@),
{
    if s.len() > 0 && s[0] == '-' {
        if s.len() == 1 {
            return None;
        }
        match capped_digits_value(s, 1) {
            Some(v) => {
                if v <= 0x8000_0000u64 {
                    Some((0i64 - v as i64) as i32)
                } else {
                    None
                }
            },
            None => None,
        }
    } else {
        let start: usize = if s.len() > 0 && s[0] == '+' {
            1
        } else {
            0
        };
        assert(s@.skip(start as int) =~= unsigned_digits(s@));
        if start == s.len() {
            return None;
        }
        match capped_digits_value(s, start) {
            Some(v) => {
                if v <= i32::MAX as u64 {
                    Some(v as i32)
                } else {
                    None
                }
            },
            None => None,
        }
    }
}

/// The fields of `s` between occurrences of the separator `c`, in order; a
/// string without `c` is one field.
pub open spec fn split_on(s: Seq<char>, c: char) -> Seq<Seq<char>>
    decreases s.len(),
{
    if s.len() == 0 {
        seq![Seq::<char>::empty()]
    } else {
        let prev = split_on(s.drop_last(), c);
        if s.last() == c {
            prev.push(Seq::<char>::empty())
        } else {
            prev.update(prev.len() - 1, prev.last().push(s.last()))
        }
    }
}

pub proof fn lemma_split_nonempty(s: Seq<char>, c: char)
    ensures
        split_on(s, c).len() >= 1,
    decreases s.len(),
{
    if s.len() > 0 {
        lemma_split_nonempty(s.drop_last(), c);
    }
}

/// Appending characters other than the separator extends the last field.
pub proof fn lemma_split_append(x: Seq<char>, b: Seq<char>, c: char)
    requires
        !b.contains(c),
    ensures
        split_on(x + b, c) == split_on(x, c).drop_last().push(split_on(x, c).last() + b),
    decreases b.len(),
{
    lemma_split_nonempty(x, c);
    let sx = split_on(x, c);
    if b.len() == 0 {
        assert(x + b =~= x);
        assert(sx.last() + b =~= sx.last());
        assert(sx.drop_last().push(sx.last()) =~= sx);
    } else {
        let b1 = b.drop_last();
        assert(!b1.contains(c)) by {
            if b1.contains(c) {
                let k = choose|k: int| 0 <= k < b1.len() && b1[k] == c;
                assert(b[k] == c);
            }
        }
        lemma_split_append(x, b1, c);
        assert((x + b).drop_last() =~= x + b1);
        assert((x + b).last() == b.last());
        assert(b.last() != c) by {
            assert(b[b.len() - 1] == b.last());
        }
        assert((sx.last() + b1).push(b.last()) =~= sx.last() + b);
        assert(split_on(x + b, c) =~= sx.drop_last().push(sx.last() + b));
    }
}

/// A separator closes the last field and opens an empty one.
pub proof fn lemma_split_sep(x: Seq<char>, c: char)
    ensures
        split_on(x.push(c), c) == split_on(x, c).push(Seq::<char>::empty()),
{
    assert(x.push(c).drop_last() =~= x);
}

/// A string without the separator is a single field.
pub proof fn lemma_split_single(a: Seq<char>, c: char)
    requires
        !a.contains(c),
    ensures
        split_on(a, c) == seq![a],
{
    lemma_split_append(Seq::<char>::empty(), a, c);
    assert(Seq::<char>::empty() + a =~= a);
    assert(split_on(Seq::<char>::empty(), c).drop_last().push(Seq::<char>::empty() + a) =~= seq![a]);
}

/// Splits `s` at every occurrence of `c`.
pub fn split_chars(s: &Vec<char>, c: char) -> (r: Vec<Vec<char>>)
    ensures
        r@.len() == split_on(s@, c).len(),
        forall|k: int| 0 <= k < r@.len() ==> (#[trigger] r@[k])@ == split_on(s@, c)[k],
{
    let mut fields: Vec<Vec<char>> = Vec::new();
    let mut cur: Vec<char> = Vec::new();
    let mut i: usize = 0;
    assert(s@.take(0) =~= Seq::<char>::empty());
    while i < s.len()
        invariant
            i <= s@.len(),
            split_on(s@.take(i as int), c).len() == fields@.len() + 1,
            forall|k: int|
                0 <= k < fields@.len() ==> (#[trigger] fields@[k])@ == split_on(
                    s@.take(i as int),
                    c,
                )[k],
            cur@ == split_on(s@.take(i as int), c).last(),
        decreases s@.len() - i,
    {
        let x = s[i];
        assert(s@.take(i + 1 as int).drop_last() =~= s@.take(i as int));
        assert(s@.take(i + 1 as int).last() == x);
        if x == c {
            fields.push(cur);
            cur = Vec::new();
        } else {
            cur.push(x);
        }
        i = i + 1;
    }
    assert(s@.take(s@.len() as int) =~= s@);
    fields.push(cur);
    fields
}

} // verus!

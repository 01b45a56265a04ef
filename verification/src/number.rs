//! Decimal numbers in text.

use vstd::prelude::*;

use crate::text::chars_of;

verus! {

/// The character for a decimal digit.
pub open spec fn digit(d: int) -> char {
    if d == 0 {
        '0'
    } else if d == 1 {
        '1'
    } else if d == 2 {
        '2'
    } else if d == 3 {
        '3'
    } else if d == 4 {
        '4'
    } else if d == 5 {
        '5'
    } else if d == 6 {
        '6'
    } else if d == 7 {
        '7'
    } else if d == 8 {
        '8'
    } else {
        '9'
    }
}

/// `n` in decimal, without leading zeros.
pub open spec fn decimal(n: nat) -> Seq<char>
    decreases n,
{
    if n < 10 {
        seq![digit(n as int)]
    } else {
        decimal(n / 10).push(digit((n % 10) as int))
    }
}

/// `n` in decimal, with a minus sign in front where it is negative.
pub open spec fn signed_decimal(n: int) -> Seq<char> {
    if n < 0 {
        seq!['-'] + decimal((-n) as nat)
    } else {
        decimal(n as nat)
    }
}

/// `s` behind as many spaces as make it at least `width` characters long.
pub open spec fn right_aligned(s: Seq<char>, width: nat) -> Seq<char> {
    if s.len() < width {
        Seq::new((width - s.len()) as nat, |i: int| ' ') + s
    } else {
        s
    }
}

fn digit_char(d: u128) -> (c: char)
    requires
        d < 10,
    ensures
        c == digit(d as int),
{
    if d == 0 {
        '0'
    } else if d == 1 {
        '1'
    } else if d == 2 {
        '2'
    } else if d == 3 {
        '3'
    } else if d == 4 {
        '4'
    } else if d == 5 {
        '5'
    } else if d == 6 {
        '6'
    } else if d == 7 {
        '7'
    } else if d == 8 {
        '8'
    } else {
        '9'
    }
}

/// Appends `n` in decimal.
pub fn push_decimal(out: &mut String, n: u128)
    ensures
        final(out)@ == old(out)@ + decimal(n as nat),
    decreases n,
{
    if n >= 10 {
        push_decimal(out, n / 10);
    }
    out.push(digit_char(n % 10));
    assert(out@ == old(out)@ + decimal(n as nat));
}

/// `n` in decimal.
pub fn decimal_text(n: u128) -> (s: String)
    ensures
        s@ == decimal(n as nat),
{
    let mut s = String::new();
    push_decimal(&mut s, n);
    assert(s@ == decimal(n as nat));
    s
}

/// `n` in decimal, with a minus sign in front where it is negative.
pub fn signed_text(n: i64) -> (s: String)
    ensures
        s@ == signed_decimal(n as int),
{
    let mut s = String::new();
    if n < 0 {
        s.push('-');
        let magnitude: u128 = (-(n as i128)) as u128;
        push_decimal(&mut s, magnitude);
    } else {
        push_decimal(&mut s, n as u128);
    }
    assert(s@ == signed_decimal(n as int));
    s
}

/// `s` behind as many spaces as make it at least `width` characters long.
pub fn align_right(s: &str, width: usize) -> (t: String)
    ensures
        t@ == right_aligned(s@, width as nat),
{
    let n: usize = chars_of(s).len();
    let mut t = String::new();
    if n < width {
        let missing: usize = width - n;
        let mut i: usize = 0;
        while i < missing
            invariant
                i <= missing,
                t@ == Seq::new(i as nat, |j: int| ' '),
            decreases missing - i,
        {
            t.push(' ');
            assert(t@ == Seq::new((i + 1) as nat, |j: int| ' '));
            i = i + 1;
        }
    }
    t.push_str(s);
    assert(t@ == right_aligned(s@, width as nat));
    t
}

/// The value of a decimal digit.
pub open spec fn digit_value(c: char) -> Option<nat> {
    if '0' <= c <= '9' {
        Some((c as u32 - '0' as u32) as nat)
    } else {
        None
    }
}

/// The value of a row of decimal digits; `None` where another character stands in it.
pub open spec fn digits_value(s: Seq<char>) -> Option<nat>
    decreases s.len(),
{
    if s.len() == 0 {
        Some(0)
    } else {
        match (digits_value(s.drop_last()), digit_value(s.last())) {
            (Some(high), Some(low)) => Some(high * 10 + low),
            _ => None,
        }
    }
}

/// What a 16-bit unsigned number may look like: an optional plus sign and at least one
/// digit, with a value that fits.
pub open spec fn u16_of(s: Seq<char>) -> Option<nat> {
    let digits = if s.len() > 1 && s[0] == '+' {
        s.drop_first()
    } else {
        s
    };
    match digits_value(digits) {
        Some(n) if digits.len() > 0 && n <= u16::MAX => Some(n),
        _ => None,
    }
}

/// Leading digits only ever make a value larger.
proof fn lemma_digits_grow(s: Seq<char>, k: int)
    requires
        0 <= k <= s.len(),
    ensures
        digits_value(s) is Some ==> digits_value(s.take(k)) is Some && digits_value(s.take(k))->0
            <= digits_value(s)->0,
    decreases s.len() - k,
{
    if k < s.len() {
        lemma_digits_grow(s.drop_last(), k);
        assert(s.drop_last().take(k) == s.take(k));
    } else {
        assert(s.take(k) == s);
    }
}

proof fn lemma_digit_value(d: int)
    requires
        0 <= d < 10,
    ensures
        digit_value(digit(d)) == Some(d as nat),
        '0' <= digit(d) <= '9',
        d > 0 ==> digit(d) != '0',
{
}

/// A number in decimal is a row of digits with that value, and starts with a zero only
/// where it is zero.
pub proof fn law_decimal_reads_back(n: nat)
    ensures
        digits_value(decimal(n)) == Some(n),
        decimal(n).len() > 0,
        n > 0 ==> decimal(n)[0] != '0',
        n < 10 ==> decimal(n).len() == 1,
        forall|i: int| 0 <= i < decimal(n).len() ==> '0' <= #[trigger] decimal(n)[i] <= '9',
    decreases n,
{
    reveal_with_fuel(digits_value, 2);
    lemma_digit_value((n % 10) as int);
    if n < 10 {
        assert(decimal(n).drop_last() =~= Seq::<char>::empty());
    } else {
        law_decimal_reads_back(n / 10);
        assert(decimal(n).drop_last() =~= decimal(n / 10));
        assert(decimal(n)[0] == decimal(n / 10)[0]);
    }
}

/// The sign of a number stands in front of its magnitude, and only where it is negative.
pub proof fn law_signed_decimal(n: nat)
    ensures
        signed_decimal(n as int) == decimal(n),
        n > 0 ==> signed_decimal(-n) == seq!['-'] + decimal(n),
{
}

/// A number that fits in 16 bits is read from its decimal form, with a plus sign or
/// without; no larger number is, and nothing that holds another character.
pub proof fn law_number_reads_back(n: nat, s: Seq<char>)
    ensures
        u16_of(decimal(n)) == (if n <= 65535 {
            Some(n)
        } else {
            None
        }),
        u16_of(seq!['+'] + decimal(n)) == u16_of(decimal(n)),
        (exists|i: int| 1 <= i < s.len() && !('0' <= #[trigger] s[i] <= '9')) ==> u16_of(s) is None,
        s.len() == 0 ==> u16_of(s) is None,
        s.len() > 0 && !('0' <= s[0] <= '9') && s[0] != '+' ==> u16_of(s) is None,
        s.len() == 1 && s[0] == '+' ==> u16_of(s) is None,
{
    law_decimal_reads_back(n);
    assert((seq!['+'] + decimal(n)).drop_first() =~= decimal(n));
    if exists|i: int| 1 <= i < s.len() && !('0' <= #[trigger] s[i] <= '9') {
        let i = choose|i: int| 1 <= i < s.len() && !('0' <= #[trigger] s[i] <= '9');
        lemma_digits_only(s, i);
        assert(s.drop_first()[i - 1] == s[i]);
        lemma_digits_only(s.drop_first(), i - 1);
    }
    if s.len() > 0 && !('0' <= s[0] <= '9') {
        lemma_digits_only(s, 0);
    }
}

/// Zeros in front of a number change nothing.
pub proof fn law_leading_zeros(s: Seq<char>)
    requires
        s.len() > 0,
        s[0] != '+',
    ensures
        u16_of(seq!['0'] + s) == u16_of(s),
{
    lemma_leading_zero(s);
}

proof fn lemma_leading_zero(s: Seq<char>)
    ensures
        digits_value(seq!['0'] + s) == digits_value(s),
    decreases s.len(),
{
    let longer = seq!['0'] + s;
    if s.len() == 0 {
        assert(longer =~= seq!['0']);
        assert(longer.drop_last() =~= Seq::<char>::empty());
        reveal_with_fuel(digits_value, 2);
    } else {
        lemma_leading_zero(s.drop_last());
        assert(longer.drop_last() =~= seq!['0'] + s.drop_last());
        assert(longer.last() == s.last());
    }
}

proof fn lemma_digits_only(s: Seq<char>, i: int)
    requires
        0 <= i < s.len(),
        !('0' <= s[i] <= '9'),
    ensures
        digits_value(s) is None,
    decreases s.len(),
{
    if i < s.len() - 1 {
        lemma_digits_only(s.drop_last(), i);
    }
}

/// Aligned text ends with the text and has nothing but spaces in front, as few as fill
/// the width.
pub proof fn law_right_aligned(s: Seq<char>, width: nat)
    ensures
        right_aligned(s, width).len() == (if s.len() < width {
            width
        } else {
            s.len()
        }),
        right_aligned(s, width).skip(right_aligned(s, width).len() - s.len()) == s,
        forall|i: int|
            0 <= i < right_aligned(s, width).len() - s.len() ==> #[trigger] right_aligned(
                s,
                width,
            )[i] == ' ',
{
}

/// Reads a 16-bit unsigned number.
pub fn parse_u16(s: &str) -> (n: Option<u16>)
    ensures
        match n {
            Some(n) => u16_of(s@) == Some(n as nat),
            None => u16_of(s@) is None,
        },
{
    let chars = chars_of(s);
    let len: usize = chars.len();
    if len == 0 {
        return None;
    }
    let start: usize = if len > 1 && chars[0] == '+' { 1 } else { 0 };
    let ghost digits = s@.skip(start as int);
    proof {
        assert(s@.skip(0) == s@);
        assert(s@.skip(1) == s@.drop_first());
        assert(digits.take(0) == Seq::<char>::empty());
    }
    let mut value: u32 = 0;
    let mut i: usize = start;
    while i < len
        invariant
            chars@ == s@,
            len == chars@.len(),
            start <= i <= len,
            digits == s@.skip(start as int),
            start == (if len > 1 && s@[0] == '+' { 1int } else { 0 }),
            u16_of(s@) == (match digits_value(digits) {
                Some(n) if digits.len() > 0 && n <= u16::MAX => Some(n),
                _ => None,
            }),
            value <= u16::MAX,
            digits_value(digits.take(i - start)) == Some(value as nat),
        decreases len - i,
    {
        let c: char = chars[i];
        proof {
            assert(digits.take(i + 1 - start).drop_last() == digits.take(i - start));
            assert(digits.take(i + 1 - start).last() == c);
            lemma_digits_grow(digits, i + 1 - start);
        }
        if c < '0' || c > '9' {
            return None;
        }
        value = value * 10 + (c as u32 - '0' as u32);
        if value > 65535 {
            return None;
        }
        i = i + 1;
    }
    assert(digits.take(len - start) == digits);
    Some(value as u16)
}

} // verus!

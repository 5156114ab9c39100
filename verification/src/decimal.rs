//! Decimal notation: reading a natural number from text and writing one out.

use vstd::prelude::*;
use vstd::string::*;

verus! {

/// Whether `c` is one of the ten decimal digits `0` to `9`.
pub open spec fn is_digit(c: char) -> bool {
    '0' <= c <= '9'
}

/// The number that the digit `c` stands for.
pub open spec fn digit_value(c: char) -> nat
    recommends
        is_digit(c),
{
    (c as int - '0' as int) as nat
}

/// The digit that stands for `d`, for `d` below ten.
pub open spec fn digit_char(d: nat) -> char
    recommends
        d < 10,
{
    ('0' as int + d) as char
}

/// Whether every character of `s` is a decimal digit.
pub open spec fn all_digits(s: Seq<char>) -> bool {
    forall|i: int| 0 <= i < s.len() ==> is_digit(#[trigger] s[i])
}

/// The number that the digits `s` write, most significant digit first.
/// The empty sequence writes 0.
pub open spec fn digits_value(s: Seq<char>) -> nat
    decreases s.len(),
{
    if s.len() == 0 {
        0
    } else {
        10 * digits_value(s.drop_last()) + digit_value(s.last())
    }
}

/// `s` without its leading `+`, if it has one.
pub open spec fn unsigned_part(s: Seq<char>) -> Seq<char> {
    if s.len() > 0 && s[0] == '+' {
        s.drop_first()
    } else {
        s
    }
}

/// Whether `s` writes a natural number: an optional `+`, then at least one
/// digit, and nothing else.
pub open spec fn is_numeral(s: Seq<char>) -> bool {
    unsigned_part(s).len() > 0 && all_digits(unsigned_part(s))
}

/// The number that the numeral `s` writes.
pub open spec fn numeral_value(s: Seq<char>) -> nat
    recommends
        is_numeral(s),
{
    digits_value(unsigned_part(s))
}

/// What reading `s` as a `usize` gives: the number it writes, if it writes
/// one and the number fits.
pub open spec fn read_usize(s: Seq<char>) -> Option<usize> {
    if is_numeral(s) && numeral_value(s) <= usize::MAX {
        Some(numeral_value(s) as usize)
    } else {
        None
    }
}

/// A longer run of digits never writes a smaller number than its beginning.
pub proof fn lemma_prefix_value_le(s: Seq<char>, k: int)
    requires
        0 <= k <= s.len(),
    ensures
        digits_value(s.subrange(0, k)) <= digits_value(s),
    decreases s.len() - k,
{
    if k == s.len() {
        assert(s.subrange(0, k) =~= s);
    } else {
        lemma_prefix_value_le(s.drop_last(), k);
        assert(s.drop_last().subrange(0, k) =~= s.subrange(0, k));
    }
}

/// The decimal digits of `n`, most significant first and without leading
/// zeros; the single digit `0` for 0.
pub open spec fn decimal(n: nat) -> Seq<char>
    decreases n,
{
    if n < 10 {
        seq![digit_char(n)]
    } else {
        decimal(n / 10).push(digit_char(n % 10))
    }
}

/// Writing a number out and reading it back gives the number again.
pub proof fn lemma_decimal_reads_back(n: nat)
    ensures
        all_digits(decimal(n)),
        digits_value(decimal(n)) == n,
        is_numeral(decimal(n)),
        numeral_value(decimal(n)) == n,
    decreases n,
{
    let s = decimal(n);
    if n < 10 {
        assert(digits_value(s) == 10 * digits_value(s.drop_last()) + digit_value(s.last()));
    } else {
        lemma_decimal_reads_back(n / 10);
        assert(s.drop_last() =~= decimal(n / 10));
    }
}

/// Different numbers are written differently.
pub proof fn lemma_decimal_is_injective(a: nat, b: nat)
    requires
        decimal(a) == decimal(b),
    ensures
        a == b,
{
    lemma_decimal_reads_back(a);
    lemma_decimal_reads_back(b);
}

/// The byte of the sign `+`.
const PLUS: u8 = 43;

/// The byte of the digit `0`.
const ZERO: u8 = 48;

/// The byte of the digit `9`.
const NINE: u8 = 57;

/// Reads `s` as a `usize` written in decimal.
pub fn parse_usize(s: &str) -> (r: Option<usize>)
    ensures
        r == read_usize(s@),
{
    if !s.is_ascii() {
        proof {
            let i = choose|i: int| 0 <= i < s@.len() && !('\0' <= #[trigger] s@[i] <= '\u{7f}');
            let u = unsigned_part(s@);
            if u.len() != s@.len() {
                assert(!is_digit(u[i - 1]));
            }
        }
        return None;
    }
    let bytes = s.as_bytes();
    let n = bytes.len();
    proof {
        is_ascii_spec_bytes(s);
        assert forall|k: int| 0 <= k < n implies bytes@[k] as int == s@[k] as int by {}
    }
    let start: usize = if n > 0 && bytes[0] == PLUS {
        1
    } else {
        0
    };
    let ghost digits = unsigned_part(s@);
    if start == n {
        return None;
    }
    let mut acc: usize = 0;
    let mut i: usize = start;
    while i < n
        invariant
            start <= i <= n,
            n == bytes@.len(),
            n == s@.len(),
            forall|k: int| 0 <= k < n ==> bytes@[k] as int == s@[k] as int,
            digits == s@.subrange(start as int, n as int),
            digits == unsigned_part(s@),
            all_digits(digits.subrange(0, i - start)),
            acc == digits_value(digits.subrange(0, i - start)),
        decreases n - i,
    {
        let b = bytes[i];
        let ghost c = s@[i as int];
        assert(c == digits[i - start]);
        if b < ZERO || b > NINE {
            return None;
        }
        let d: usize = (b - ZERO) as usize;
        let ghost longer = digits.subrange(0, i - start + 1);
        proof {
            assert(longer.drop_last() =~= digits.subrange(0, i - start));
            lemma_prefix_value_le(digits, i - start + 1);
        }
        let tenfold = match acc.checked_mul(10) {
            Some(t) => t,
            None => {
                return None;
            },
        };
        acc = match tenfold.checked_add(d) {
            Some(v) => v,
            None => {
                return None;
            },
        };
        i += 1;
    }
    assert(digits.subrange(0, n - start) =~= digits);
    Some(acc)
}

/// The one-character text of the digit for `d`.
fn digit_text(d: u64) -> (s: &'static str)
    requires
        d < 10,
    ensures
        s@ == seq![digit_char(d as nat)],
{
    proof {
        reveal_strlit("0");
        reveal_strlit("1");
        reveal_strlit("2");
        reveal_strlit("3");
        reveal_strlit("4");
        reveal_strlit("5");
        reveal_strlit("6");
        reveal_strlit("7");
        reveal_strlit("8");
        reveal_strlit("9");
    }
    match d {
        0 => "0",
        1 => "1",
        2 => "2",
        3 => "3",
        4 => "4",
        5 => "5",
        6 => "6",
        7 => "7",
        8 => "8",
        _ => "9",
    }
}

/// Appends the decimal digits of `n` to `out`.
pub fn push_decimal(out: &mut String, n: u64)
    ensures
        final(out)@ == old(out)@ + decimal(n as nat),
    decreases n,
{
    if n >= 10 {
        push_decimal(out, n / 10);
    }
    out.append(digit_text(n % 10));
}

/// Writes `n` in decimal.
pub fn to_decimal(n: u64) -> (s: String)
    ensures
        s@ == decimal(n as nat),
{
    let mut s = String::new();
    push_decimal(&mut s, n);
    s
}

} // verus!

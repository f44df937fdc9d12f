//! Decimal digits: printing a number as text and parsing text as a number.

use vstd::prelude::*;

verus! {

/// True exactly of the ten ASCII decimal digit characters.
pub open spec fn is_digit(c: char) -> bool {
    '0' <= c && c <= '9'
}

/// Numeric value of a digit character.
pub open spec fn char_digit(c: char) -> nat
    recommends
        is_digit(c),
{
    (c as nat - '0' as nat) as nat
}

/// Digit character for a value below ten.
pub open spec fn digit_char(d: nat) -> char
    recommends
        d < 10,
{
    (('0' as nat + d) as u8) as char
}

pub proof fn lemma_digit_char_inverse(d: nat)
    requires
        d < 10,
    ensures
        is_digit(digit_char(d)),
        char_digit(digit_char(d)) == d,
{
}

/// The usual decimal representation of `n`: no sign, no leading zero
/// (except for `n == 0`, which is the single character `0`).
pub open spec fn dec_rep(n: nat) -> Seq<char>
    decreases n,
{
    if n < 10 {
        seq![digit_char(n)]
    } else {
        dec_rep(n / 10).push(digit_char(n % 10))
    }
}

pub proof fn lemma_dec_rep_digits(n: nat)
    ensures
        dec_rep(n).len() >= 1,
        forall|i: int| 0 <= i < dec_rep(n).len() ==> is_digit(#[trigger] dec_rep(n)[i]),
    decreases n,
{
    if n < 10 {
        lemma_digit_char_inverse(n);
    } else {
        lemma_dec_rep_digits(n / 10);
        lemma_digit_char_inverse(n % 10);
    }
}

/// A single digit of `n`, as a one-character borrowed string.
fn digit_str(n: u64) -> (r: &'static str)
    requires
        n < 10,
    ensures
        r@ == seq![digit_char(n as nat)],
{
    proof {
        reveal_strlit("0");
        reveal_strlit("1");
        reveal_strlit("2");
        reveal_strlit("3");
        reveal_strlit("4");
        reveal_strlit("5");
        reveal_strlit("6");
        reveal_strlit("7");
        reveal_strlit("8");
        reveal_strlit("9");
    }
    if n == 0 {
        "0"
    } else if n == 1 {
        "1"
    } else if n == 2 {
        "2"
    } else if n == 3 {
        "3"
    } else if n == 4 {
        "4"
    } else if n == 5 {
        "5"
    } else if n == 6 {
        "6"
    } else if n == 7 {
        "7"
    } else if n == 8 {
        "8"
    } else {
        "9"
    }
}

/// Prints `n` in decimal.
pub fn u64_to_string(n: u64) -> (s: String)
    ensures
        s@ == dec_rep(n as nat),
    decreases n,
{
    if n < 10 {
        String::from_str(digit_str(n))
    } else {
        let mut s = u64_to_string(n / 10);
        s.append(digit_str(n % 10));
        proof {
            assert(s@ =~= dec_rep(n as nat));
        }
        s
    }
}

/// How parsing an unsigned 16-bit number can fail; mirrors the failures
/// of integer parsing in the standard library, in the same order of
/// detection (a bad character is reported at the first offending
/// position, overflow as soon as the accumulated value leaves the range).
#[derive(Clone, Copy, Debug, PartialEq, Eq, Structural)]
pub enum ParseError {
    /// The input was completely empty.
    Empty,
    /// A character that is not a decimal digit (or a lone sign).
    InvalidDigit,
    /// The value does not fit in 16 bits.
    Overflow,
}

/// Left-to-right scan of a digit string, accumulating the value; stops
/// at the first non-digit or at the first step that leaves 16 bits.
pub open spec fn parse_digits(t: Seq<char>, acc: nat) -> Result<u16, ParseError>
    recommends
        acc <= 0xffff,
    decreases t.len(),
{
    if t.len() == 0 {
        Ok(acc as u16)
    } else if !is_digit(t[0]) {
        Err(ParseError::InvalidDigit)
    } else if acc * 10 + char_digit(t[0]) > 0xffff {
        Err(ParseError::Overflow)
    } else {
        parse_digits(t.drop_first(), acc * 10 + char_digit(t[0]))
    }
}

/// What `<index>` in a `GET` command means: the parsing rules of the
/// standard library for `u16` — an optional leading `+`, then one or
/// more decimal digits, value at most 65535.
pub open spec fn parse_u16_spec(s: Seq<char>) -> Result<u16, ParseError> {
    if s.len() == 0 {
        Err(ParseError::Empty)
    } else {
        let t = if s[0] == '+' {
            s.drop_first()
        } else {
            s
        };
        if t.len() == 0 {
            Err(ParseError::InvalidDigit)
        } else {
            parse_digits(t, 0)
        }
    }
}

/// Scanning a concatenation first scans the left part; only when that
/// part runs out cleanly does the scan continue into the right part,
/// carrying the accumulated value.
pub proof fn lemma_parse_digits_concat(a: Seq<char>, b: Seq<char>, acc: nat)
    requires
        acc <= 0xffff,
    ensures
        parse_digits(a + b, acc) == match parse_digits(a, acc) {
            Ok(v) => parse_digits(b, v as nat),
            Err(e) => Err(e),
        },
    decreases a.len(),
{
    if a.len() == 0 {
        assert(a + b =~= b);
    } else {
        assert((a + b)[0] == a[0]);
        if is_digit(a[0]) && acc * 10 + char_digit(a[0]) <= 0xffff {
            assert((a + b).drop_first() =~= a.drop_first() + b);
            lemma_parse_digits_concat(a.drop_first(), b, acc * 10 + char_digit(a[0]));
        }
    }
}

/// Round trip of printing and parsing: the decimal representation of
/// any value that fits in 16 bits parses back to exactly that value.
pub proof fn lemma_dec_rep_parses(n: nat)
    requires
        n <= 0xffff,
    ensures
        parse_u16_spec(dec_rep(n)) == Ok::<u16, ParseError>(n as u16),
    decreases n,
{
    lemma_dec_rep_digits(n);
    lemma_parse_digits_all(n);
    assert(!is_digit('+'));
    assert(dec_rep(n)[0] != '+');
}

/// The digit scan of `dec_rep(n)` from accumulator zero yields `n`.
proof fn lemma_parse_digits_all(n: nat)
    requires
        n <= 0xffff,
    ensures
        parse_digits(dec_rep(n), 0) == Ok::<u16, ParseError>(n as u16),
    decreases n,
{
    if n < 10 {
        lemma_digit_char_inverse(n);
        assert(dec_rep(n).drop_first() =~= Seq::<char>::empty());
    } else {
        lemma_digit_char_inverse(n % 10);
        lemma_parse_digits_all(n / 10);
        let d = digit_char(n % 10);
        assert(dec_rep(n) =~= dec_rep(n / 10) + seq![d]);
        lemma_parse_digits_concat(dec_rep(n / 10), seq![d], 0);
        assert(seq![d].len() == 1 && seq![d][0] == d);
        assert(seq![d].drop_first() =~= Seq::<char>::empty());
        assert((n / 10) * 10 + n % 10 == n && n / 10 <= 0xffff) by (nonlinear_arith)
            requires
                10 <= n <= 0xffff,
        ;
        assert(char_digit(d) == n % 10);
        assert(parse_digits(Seq::<char>::empty(), n) == Ok::<u16, ParseError>(n as u16));
        assert(parse_digits(seq![d], (n / 10) as nat) == Ok::<u16, ParseError>(n as u16));
    }
}

/// Parses `s` as an unsigned 16-bit decimal number.
pub fn parse_u16(s: &str) -> (r: Result<u16, ParseError>)
    ensures
        r == parse_u16_spec(s@),
{
    let len = s.unicode_len();
    if len == 0 {
        return Err(ParseError::Empty);
    }
    let start: usize = if s.get_char(0) == '+' {
        1
    } else {
        0
    };
    if start == len {
        return Err(ParseError::InvalidDigit);
    }
    let ghost t: Seq<char> = s@.skip(start as int);
    proof {
        assert(t.skip(0) =~= t);
        if s@[0] == '+' {
            assert(s@.drop_first() =~= t);
        } else {
            assert(s@.skip(0) =~= s@);
        }
    }
    let mut acc: u16 = 0;
    let mut i: usize = start;
    while i < len
        invariant
            start <= i <= len,
            len == s@.len(),
            t == s@.skip(start as int),
            t.len() > 0,
            acc <= 0xffff,
            parse_digits(t, 0) == parse_digits(t.skip((i - start) as int), acc as nat),
            parse_u16_spec(s@) == parse_digits(t, 0),
        decreases len - i,
    {
        let c = s.get_char(i);
        let ghost rest = t.skip((i - start) as int);
        proof {
            assert(rest[0] == s@[i as int]);
        }
        let cv: u32 = c as u32;
        if cv < 48 || cv > 57 {
            return Err(ParseError::InvalidDigit);
        }
        let d: u32 = cv - 48;
        proof {
            assert(d == char_digit(rest[0]));
        }
        let v: u32 = acc as u32 * 10 + d;
        if v > 0xffff {
            return Err(ParseError::Overflow);
        }
        acc = v as u16;
        proof {
            assert(rest.drop_first() =~= t.skip((i + 1 - start) as int));
        }
        i = i + 1;
    }
    proof {
        assert(t.skip((i - start) as int) =~= Seq::<char>::empty());
    }
    Ok(acc)
}

} // verus!


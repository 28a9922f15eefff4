//! Integer literals as the platform environment writes addresses.
use vstd::prelude::*;

verus! {

/// Why a text is not an unsigned integer literal.
#[derive(Debug, Clone, Copy, PartialEq, Eq, Structural)]
pub enum ParseIntError {
    /// No digits at all.
    Empty,
    /// A character that is not a digit of the radix.
    InvalidDigit,
    /// The value does not fit in 64 bits.
    PosOverflow,
}

/// The value of a digit character: `0`-`9`, then letters of either case from ten on.
pub open spec fn digit_value(c: char) -> nat {
    if '0' <= c <= '9' {
        (c as nat - '0' as nat) as nat
    } else if 'a' <= c <= 'z' {
        (c as nat - 'a' as nat + 10) as nat
    } else if 'A' <= c <= 'Z' {
        (c as nat - 'A' as nat + 10) as nat
    } else {
        36
    }
}

pub open spec fn is_digit(c: char, radix: nat) -> bool {
    digit_value(c) < radix
}

/// The value of a digit sequence, most significant first.
pub open spec fn digits_value(s: Seq<char>, radix: nat) -> nat
    decreases s.len(),
{
    if s.len() == 0 {
        0
    } else {
        digits_value(s.drop_last(), radix) * radix + digit_value(s.last())
    }
}

/// The text after one leading `+`, if there is one.
pub open spec fn sign_stripped(s: Seq<char>) -> Seq<char> {
    if s.len() > 0 && s[0] == '+' {
        s.skip(1)
    } else {
        s
    }
}

pub open spec fn all_digits(s: Seq<char>, radix: nat) -> bool {
    forall|i: int| 0 <= i < s.len() ==> is_digit(#[trigger] s[i], radix)
}

/// The value of an optional `+` followed by at least one digit of the radix.
pub open spec fn unsigned_text(s: Seq<char>, radix: nat) -> Option<nat> {
    let body = sign_stripped(s);
    if body.len() > 0 && all_digits(body, radix) {
        Some(digits_value(body, radix))
    } else {
        None
    }
}

pub open spec fn has_prefix(s: Seq<char>, a: char, b: char) -> bool {
    s.len() >= 2 && s[0] == a && s[1] == b
}

/// The value of an integer literal: hexadecimal after `0x`, octal after `0o`, binary
/// after `0b`, decimal otherwise.
pub open spec fn int_literal(s: Seq<char>) -> Option<nat> {
    if has_prefix(s, '0', 'x') {
        unsigned_text(s.skip(2), 16)
    } else if has_prefix(s, '0', 'o') {
        unsigned_text(s.skip(2), 8)
    } else if has_prefix(s, '0', 'b') {
        unsigned_text(s.skip(2), 2)
    } else {
        unsigned_text(s, 10)
    }
}

proof fn lemma_digits_grow(s: Seq<char>, radix: nat, j: int)
    requires
        0 <= j <= s.len(),
        radix >= 1,
    ensures
        digits_value(s.take(j), radix) <= digits_value(s, radix),
    decreases s.len() - j,
{
    if j < s.len() {
        lemma_digits_grow(s, radix, j + 1);
        assert(s.take(j + 1).drop_last() =~= s.take(j));
        let v = digits_value(s.take(j), radix);
        assert(v * radix >= v) by (nonlinear_arith)
            requires
                radix >= 1,
        ;
    } else {
        assert(s.take(j) =~= s);
    }
}

fn digit_of(c: char) -> (r: u64)
    ensures
        r == digit_value(c),
{
    if '0' <= c && c <= '9' {
        (c as u32 - '0' as u32) as u64
    } else if 'a' <= c && c <= 'z' {
        (c as u32 - 'a' as u32 + 10) as u64
    } else if 'A' <= c && c <= 'Z' {
        (c as u32 - 'A' as u32 + 10) as u64
    } else {
        36
    }
}

/// Reads an optional `+` and digits of `radix` from position `start` on.
fn parse_unsigned(s: &str, start: usize, radix: u64) -> (r: Result<u64, ParseIntError>)
    requires
        start <= s@.len(),
        2 <= radix <= 36,
    ensures
        r is Ok <==> (unsigned_text(s@.skip(start as int), radix as nat) is Some
            && unsigned_text(s@.skip(start as int), radix as nat)->Some_0 <= u64::MAX),
        r is Ok ==> r->Ok_0 == unsigned_text(s@.skip(start as int), radix as nat)->Some_0,
{
    let ghost t = s@.skip(start as int);
    let n = s.unicode_len();
    let mut i = start;
    if i < n && s.get_char(i) == '+' {
        i = i + 1;
    }
    let b = i;
    let ghost body = s@.skip(b as int);
    assert(body =~= sign_stripped(t));
    if b == n {
        if b > start {
            return Err(ParseIntError::InvalidDigit);
        }
        return Err(ParseIntError::Empty);
    }
    let mut acc: u64 = 0;
    while i < n
        invariant
            b <= i <= n,
            n == s@.len(),
            b < n,
            body == s@.skip(b as int),
            t == s@.skip(start as int),
            body == sign_stripped(t),
            2 <= radix <= 36,
            acc == digits_value(body.take(i - b), radix as nat),
            forall|j: int| 0 <= j < i - b ==> is_digit(#[trigger] body[j], radix as nat),
        decreases n - i,
    {
        let c = s.get_char(i);
        let d = digit_of(c);
        assert(c == body[i - b]);
        if d >= radix {
            assert(!is_digit(body[i - b], radix as nat));
            assert(!all_digits(body, radix as nat));
            return Err(ParseIntError::InvalidDigit);
        }
        proof {
            assert(body.take(i - b + 1).drop_last() =~= body.take(i - b));
        }
        match acc.checked_mul(radix) {
            Some(m) => match m.checked_add(d) {
                Some(v) => {
                    acc = v;
                },
                None => {
                    proof {
                        reveal_overflow(s, b, n, i, body, radix);
                    }
                    return Err(ParseIntError::PosOverflow);
                },
            },
            None => {
                proof {
                    reveal_overflow(s, b, n, i, body, radix);
                }
                return Err(ParseIntError::PosOverflow);
            },
        }
        i = i + 1;
    }
    assert(body.take(n - b) =~= body);
    Ok(acc)
}

proof fn reveal_overflow(s: &str, b: usize, n: usize, i: usize, body: Seq<char>, radix: u64)
    requires
        b <= i < n,
        n == s@.len(),
        body == s@.skip(b as int),
        2 <= radix <= 36,
        digits_value(body.take(i - b + 1), radix as nat) > u64::MAX,
    ensures
        all_digits(body, radix as nat) ==> digits_value(body, radix as nat) > u64::MAX,
{
    lemma_digits_grow(body, radix as nat, i - b + 1);
}

/// Reads an unsigned integer literal: hexadecimal after `0x`, octal after `0o`, binary
/// after `0b`, decimal otherwise; each may start with `+`.
pub fn parse_int(s: &str) -> (r: Result<u64, ParseIntError>)
    ensures
        r is Ok <==> (int_literal(s@) is Some && int_literal(s@)->Some_0 <= u64::MAX),
        r is Ok ==> r->Ok_0 == int_literal(s@)->Some_0,
{
    let n = s.unicode_len();
    let prefixed = n >= 2 && s.get_char(0) == '0';
    if prefixed {
        let c = s.get_char(1);
        if c == 'x' {
            return parse_unsigned(s, 2, 16);
        } else if c == 'o' {
            return parse_unsigned(s, 2, 8);
        } else if c == 'b' {
            return parse_unsigned(s, 2, 2);
        }
    }
    assert(s@.skip(0) =~= s@);
    parse_unsigned(s, 0, 10)
}

} // verus!

use vstd::prelude::*;

verus! {

/// Why a run of characters is no number of the wanted kind.
#[derive(Clone, Copy, Debug, PartialEq, Eq, Structural)]
pub enum NumberError {
    /// There are no characters at all.
    Empty,
    /// A character is no decimal digit, or a sign stands alone.
    InvalidDigit,
    /// The digits denote more than the type can hold.
    PosOverflow,
    /// The digits denote zero where zero is not allowed.
    Zero,
}

pub open spec fn is_digit(c: char) -> bool {
    '0' <= c <= '9'
}

/// The digit that `c` stands for.
pub open spec fn digit_value(c: char) -> nat {
    (c as nat - '0' as nat) as nat
}

/// The character that stands for the digit `d`.
pub open spec fn digit_char(d: nat) -> char {
    (d + '0' as nat) as char
}

pub open spec fn all_digits(s: Seq<char>) -> bool {
    forall|i: int| 0 <= i < s.len() ==> is_digit(#[trigger] s[i])
}

/// The number that a run of digits denotes, most significant digit first.
pub open spec fn digits_value(s: Seq<char>) -> nat
    decreases s.len(),
{
    if s.len() == 0 {
        0
    } else {
        digits_value(s.drop_last()) * 10 + digit_value(s.last())
    }
}

/// The shortest decimal form of `n`.
pub open spec fn decimal(n: nat) -> Seq<char>
    decreases n,
{
    if n < 10 {
        seq![digit_char(n)]
    } else {
        decimal(n / 10).push(digit_char(n % 10))
    }
}

/// Reads the digits of `s` from the left on top of `acc`, and stops at the first
/// character that is no digit or that takes the number past `max`.
pub open spec fn scan_digits(s: Seq<char>, acc: nat, max: nat) -> Result<nat, NumberError>
    decreases s.len(),
{
    if s.len() == 0 {
        Ok(acc)
    } else if !is_digit(s[0]) {
        Err(NumberError::InvalidDigit)
    } else if acc * 10 + digit_value(s[0]) > max {
        Err(NumberError::PosOverflow)
    } else {
        scan_digits(s.drop_first(), acc * 10 + digit_value(s[0]), max)
    }
}

/// The digits of a number text: the text without one leading plus sign.
pub open spec fn unsigned_part(s: Seq<char>) -> Seq<char> {
    if s.len() > 0 && s[0] == '+' {
        s.drop_first()
    } else {
        s
    }
}

/// What a text denotes as an unsigned number of at most `max`.
pub open spec fn parse_unsigned(s: Seq<char>, max: nat) -> Result<nat, NumberError> {
    if s.len() == 0 {
        Err(NumberError::Empty)
    } else if unsigned_part(s).len() == 0 {
        Err(NumberError::InvalidDigit)
    } else {
        scan_digits(unsigned_part(s), 0, max)
    }
}

/// What a text denotes as a non-zero unsigned number of at most `max`.
pub open spec fn parse_nonzero(s: Seq<char>, max: nat) -> Result<nat, NumberError> {
    match parse_unsigned(s, max) {
        Ok(n) => if n == 0 {
            Err(NumberError::Zero)
        } else {
            Ok(n)
        },
        Err(e) => Err(e),
    }
}

pub proof fn lemma_digit_roundtrip(d: nat)
    requires
        d < 10,
    ensures
        is_digit(digit_char(d)),
        digit_value(digit_char(d)) == d,
{
}

/// Every character of a decimal form is a digit, and the form is not empty.
pub proof fn lemma_decimal_digits(n: nat)
    ensures
        decimal(n).len() > 0,
        all_digits(decimal(n)),
        decimal(n)[0] != '+',
        decimal(n)[0] != '/',
    decreases n,
{
    if n >= 10 {
        lemma_decimal_digits(n / 10);
        lemma_digit_roundtrip(n % 10);
    } else {
        lemma_digit_roundtrip(n);
    }
}

/// A decimal form denotes the number it was made from.
pub proof fn lemma_decimal_value(n: nat)
    ensures
        digits_value(decimal(n)) == n,
    decreases n,
{
    if n >= 10 {
        lemma_decimal_value(n / 10);
        lemma_digit_roundtrip(n % 10);
        let s = decimal(n / 10).push(digit_char(n % 10));
        assert(s.drop_last() == decimal(n / 10));
        assert(s.last() == digit_char(n % 10));
    } else {
        lemma_digit_roundtrip(n);
        let s = seq![digit_char(n)];
        assert(s.drop_last() == Seq::<char>::empty());
        assert(digits_value(s.drop_last()) == 0);
    }
}

/// A number below ten to the power `k` has a decimal form of at most `k` digits.
pub proof fn lemma_decimal_len(n: nat, k: nat)
    requires
        k >= 1,
        n < pow10(k),
    ensures
        decimal(n).len() <= k,
    decreases n,
{
    if n >= 10 {
        if k == 1 {
            assert(pow10(1) == 10) by {
                reveal_with_fuel(pow10, 2);
            }
        } else {
            assert(n / 10 < pow10((k - 1) as nat));
            lemma_decimal_len(n / 10, (k - 1) as nat);
        }
    }
}

/// Reading digits on top of `acc` goes by the number that the digits denote.
pub proof fn lemma_scan_value(s: Seq<char>, acc: nat, max: nat)
    ensures
        scan_digits(s, acc, max) is Ok <==> all_digits(s) && (s.len() > 0 ==> acc * pow10(s.len())
            + digits_value(s) <= max),
        scan_digits(s, acc, max) matches Ok(v) ==> v == acc * pow10(s.len()) + digits_value(s),
    decreases s.len(),
{
    if s.len() == 0 {
        assert(acc * pow10(0) == acc) by (nonlinear_arith)
            requires
                pow10(0) == 1,
        ;
    } else {
        let rest = s.drop_first();
        let next = acc * 10 + digit_value(s[0]);
        lemma_value_split(s);
        assert(acc * pow10(s.len()) == acc * 10 * pow10(rest.len())) by (nonlinear_arith)
            requires
                pow10(s.len()) == 10 * pow10(rest.len()),
        ;
        assert(next * pow10(rest.len()) == acc * 10 * pow10(rest.len()) + digit_value(s[0])
            * pow10(rest.len())) by (nonlinear_arith)
            requires
                next == acc * 10 + digit_value(s[0]),
        ;
        if !is_digit(s[0]) {
        } else {
            assert(all_digits(s) <==> all_digits(rest)) by {
                if all_digits(rest) {
                    assert forall|i: int| 0 <= i < s.len() implies is_digit(#[trigger] s[i]) by {
                        if i > 0 {
                            assert(s[i] == rest[i - 1]);
                        }
                    }
                }
                if all_digits(s) {
                    assert forall|i: int| 0 <= i < rest.len() implies is_digit(
                        #[trigger] rest[i],
                    ) by {
                        assert(rest[i] == s[i + 1]);
                    }
                }
            }
            lemma_pow10_positive(rest.len());
            if next > max {
                assert(next * pow10(rest.len()) >= next) by (nonlinear_arith)
                    requires
                        pow10(rest.len()) >= 1,
                ;
            } else {
                lemma_scan_value(rest, next, max);
            }
        }
    }
}

/// Ten to the power `n`.
pub open spec fn pow10(n: nat) -> nat
    decreases n,
{
    if n == 0 {
        1
    } else {
        10 * pow10((n - 1) as nat)
    }
}

pub proof fn lemma_pow10_positive(n: nat)
    ensures
        pow10(n) >= 1,
    decreases n,
{
    if n > 0 {
        lemma_pow10_positive((n - 1) as nat);
    }
}

/// The first digit counts for its value times a power of ten.
pub proof fn lemma_value_split(s: Seq<char>)
    requires
        s.len() > 0,
    ensures
        digits_value(s) == digit_value(s[0]) * pow10((s.len() - 1) as nat) + digits_value(
            s.drop_first(),
        ),
        pow10(s.len()) == 10 * pow10((s.len() - 1) as nat),
    decreases s.len(),
{
    if s.len() == 1 {
        assert(s.drop_last() == Seq::<char>::empty());
        assert(s.drop_first() == Seq::<char>::empty());
        assert(digits_value(s.drop_last()) == 0);
        assert(s.last() == s[0]);
        assert(pow10(0) == 1);
        assert(digit_value(s[0]) * pow10(0) == digit_value(s[0])) by (nonlinear_arith)
            requires
                pow10(0) == 1,
        ;
    } else {
        let init = s.drop_last();
        lemma_value_split(init);
        assert(init.drop_first() == s.drop_first().drop_last());
        assert(s.drop_first().last() == s.last());
        assert(init[0] == s[0]);
        let a = digit_value(s[0]);
        let p = pow10((init.len() - 1) as nat);
        assert(pow10((s.len() - 1) as nat) == 10 * p);
        assert(digits_value(s) == digits_value(init) * 10 + digit_value(s.last()));
        assert(digits_value(s.drop_first()) == digits_value(init.drop_first()) * 10
            + digit_value(s.last()));
        assert((a * p + digits_value(init.drop_first())) * 10 == a * (10 * p) + digits_value(
            init.drop_first(),
        ) * 10) by (nonlinear_arith);
    }
}

/// The text of a number reads back as that number.
pub proof fn lemma_parse_decimal(n: nat, max: nat)
    requires
        n <= max,
    ensures
        parse_unsigned(decimal(n), max) == Ok::<nat, NumberError>(n),
{
    lemma_decimal_digits(n);
    lemma_decimal_value(n);
    let s = decimal(n);
    assert(unsigned_part(s) == s);
    lemma_scan_value(s, 0, max);
    assert(0 * pow10(s.len()) == 0) by (nonlinear_arith);
}

/// Appends the shortest decimal form of `n` to `out`.
pub fn push_decimal(out: &mut String, n: u64)
    ensures
        final(out)@ == old(out)@ + decimal(n as nat),
    decreases n,
{
    if n >= 10 {
        push_decimal(out, n / 10);
    }
    let d: u8 = (n % 10) as u8;
    let c: char = (d + 48u8) as char;
    assert(c == digit_char((n % 10) as nat));
    out.push(c);
    proof {
        if n >= 10 {
            assert(old(out)@ + decimal((n / 10) as nat).push(c) == (old(out)@ + decimal(
                (n / 10) as nat,
            )).push(c));
        } else {
            assert(old(out)@ + seq![c] == old(out)@.push(c));
        }
    }
}

/// The shortest decimal form of `n`.
pub fn format_decimal(n: u64) -> (r: String)
    ensures
        r@ == decimal(n as nat),
{
    let mut r = String::new();
    push_decimal(&mut r, n);
    assert(Seq::<char>::empty() + decimal(n as nat) == decimal(n as nat));
    r
}

/// Reads `chars[from..to]` as an unsigned number of at most `max`.
pub fn parse_decimal(chars: &Vec<char>, from: usize, to: usize, max: u64) -> (r: Result<
    u64,
    NumberError,
>)
    requires
        from <= to <= chars.len(),
    ensures
        r is Ok == parse_unsigned(chars@.subrange(from as int, to as int), max as nat) is Ok,
        r matches Ok(n) ==> n <= max && parse_unsigned(
            chars@.subrange(from as int, to as int),
            max as nat,
        ) == Ok::<nat, NumberError>(n as nat),
        r matches Err(e) ==> parse_unsigned(chars@.subrange(from as int, to as int), max as nat)
            == Err::<nat, NumberError>(e),
{
    let ghost text = chars@.subrange(from as int, to as int);
    if from == to {
        return Err(NumberError::Empty);
    }
    let start = if chars[from] == '+' {
        from + 1
    } else {
        from
    };
    assert(text[0] == chars@[from as int]);
    let ghost body = chars@.subrange(start as int, to as int);
    assert(body == unsigned_part(text));
    if start == to {
        return Err(NumberError::InvalidDigit);
    }
    let mut acc: u64 = 0;
    let mut i = start;
    while i < to
        invariant
            from <= start <= i <= to <= chars.len(),
            start < to,
            acc <= max,
            text == chars@.subrange(from as int, to as int),
            body == unsigned_part(text),
            body == chars@.subrange(start as int, to as int),
            scan_digits(body, 0, max as nat) == scan_digits(
                chars@.subrange(i as int, to as int),
                acc as nat,
                max as nat,
            ),
        decreases to - i,
    {
        let c = chars[i];
        let ghost rest = chars@.subrange(i as int, to as int);
        assert(rest[0] == c);
        assert(rest.drop_first() == chars@.subrange(i + 1, to as int));
        if c < '0' || c > '9' {
            return Err(NumberError::InvalidDigit);
        }
        let d: u64 = (c as u32 - 48) as u64;
        assert(d == digit_value(c));
        if d > max {
            return Err(NumberError::PosOverflow);
        }
        if acc > (max - d) / 10 {
            assert(acc * 10 + d > max) by (nonlinear_arith)
                requires
                    acc > (max - d) / 10,
                    d <= max,
            ;
            return Err(NumberError::PosOverflow);
        }
        assert(acc * 10 + d <= max) by (nonlinear_arith)
            requires
                acc <= (max - d) / 10,
                d <= max,
        ;
        acc = acc * 10 + d;
        i += 1;
    }
    assert(chars@.subrange(i as int, to as int).len() == 0);
    Ok(acc)
}

} // verus!

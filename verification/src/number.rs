//! Decimal and hexadecimal notations of integers, and the parsing of decimal
//! numbers as `str::parse` does it for the integer types.
use vstd::prelude::*;

verus! {

pub open spec fn is_digit(c: char) -> bool {
    '0' <= c <= '9'
}

pub open spec fn digit_value(c: char) -> int {
    c as int - '0' as int
}

pub open spec fn all_digits(s: Seq<char>) -> bool {
    forall|i: int| 0 <= i < s.len() ==> is_digit(#[trigger] s[i])
}

/// The value of a run of decimal digits.
pub open spec fn digits_value(s: Seq<char>) -> int
    decreases s.len(),
{
    if s.len() == 0 {
        0
    } else {
        digits_value(s.drop_last()) * 10 + digit_value(s.last())
    }
}

/// The character of a digit below 10.
pub open spec fn digit_char(d: nat) -> char {
    ((d + '0' as nat) as u8) as char
}

/// The decimal notation of a natural number, without leading zeros.
pub open spec fn decimal(n: nat) -> Seq<char>
    decreases n,
{
    if n < 10 {
        seq![digit_char(n)]
    } else {
        decimal(n / 10).push(digit_char(n % 10))
    }
}

/// The decimal notation of an integer, with a leading `-` when negative.
pub open spec fn signed_decimal(n: int) -> Seq<char> {
    if n < 0 {
        seq!['-'] + decimal((-n) as nat)
    } else {
        decimal(n as nat)
    }
}

/// What `str::parse` gives for an unsigned integer type whose largest value
/// is `max`: an optional `+`, then one or more decimal digits, whose value
/// does not exceed `max`.
pub open spec fn parse_unsigned(s: Seq<char>, max: int) -> Option<int> {
    let body = if s.len() > 0 && s[0] == '+' { s.drop_first() } else { s };
    if body.len() > 0 && all_digits(body) && digits_value(body) <= max {
        Some(digits_value(body))
    } else {
        None
    }
}

/// What `str::parse` gives for a signed integer type with range
/// `[-max - 1, max]`: an optional sign, then one or more decimal digits.
pub open spec fn parse_signed(s: Seq<char>, max: int) -> Option<int> {
    if s.len() > 0 && s[0] == '-' {
        let body = s.drop_first();
        if body.len() > 0 && all_digits(body) && digits_value(body) <= max + 1 {
            Some(-digits_value(body))
        } else {
            None
        }
    } else {
        parse_unsigned(s, max)
    }
}

pub proof fn lemma_digits_value_nonneg(s: Seq<char>)
    requires
        all_digits(s),
    ensures
        digits_value(s) >= 0,
    decreases s.len(),
{
    if s.len() > 0 {
        lemma_digits_value_nonneg(s.drop_last());
    }
}

/// A longer run of digits has a value at least that of its prefix.
pub proof fn lemma_digits_value_prefix(s: Seq<char>, k: int)
    requires
        all_digits(s),
        0 <= k <= s.len(),
    ensures
        digits_value(s.take(k)) <= digits_value(s),
    decreases s.len() - k,
{
    if k < s.len() {
        lemma_digits_value_prefix(s, k + 1);
        assert(s.take(k + 1).drop_last() == s.take(k));
        lemma_digits_value_nonneg(s.take(k));
        assert(s.take(k + 1).last() == s[k]);
    } else {
        assert(s.take(k) == s);
    }
}

/// Parses the digits `v[from..]`, accepting values up to `max`.
fn parse_digits(v: &Vec<char>, from: usize, max: u64) -> (r: Option<u64>)
    requires
        from <= v.len(),
    ensures
        ({
            let body = v@.skip(from as int);
            &&& r is Some <==> (body.len() > 0 && all_digits(body) && digits_value(body) <= max)
            &&& r is Some ==> r->0 == digits_value(body)
        }),
{
    let ghost body = v@.skip(from as int);
    if from == v.len() {
        return None;
    }
    let mut acc: u64 = 0;
    let mut i = from;
    while i < v.len()
        invariant
            from <= i <= v.len(),
            body == v@.skip(from as int),
            all_digits(body.take(i - from)),
            acc == digits_value(body.take(i - from)),
            acc <= max,
        decreases v.len() - i,
    {
        let c = v[i];
        assert(body[i - from] == c);
        if !('0' <= c && c <= '9') {
            assert(!all_digits(body));
            return None;
        }
        let d = (c as u64) - ('0' as u64);
        let ghost prefix = body.take(i + 1 - from);
        assert(prefix.drop_last() == body.take(i - from));
        assert(prefix.last() == c);
        if d > max || acc > (max - d) / 10 {
            proof {
                assert(digits_value(prefix) == acc * 10 + d);
                assert(acc * 10 + d > max) by (nonlinear_arith)
                    requires
                        d > max || acc > (max - d) / 10,
                        d <= 9,
                        acc >= 0,
                ;
                if all_digits(body) {
                    lemma_digits_value_prefix(body, i + 1 - from);
                }
            }
            return None;
        }
        proof {
            assert(acc * 10 + d <= max) by (nonlinear_arith)
                requires
                    acc <= (max - d) / 10,
                    d <= max,
                    acc >= 0,
            ;
        }
        acc = acc * 10 + d;
        i = i + 1;
    }
    assert(body.take(i - from) == body);
    Some(acc)
}

/// Parses a decimal unsigned number no larger than `max`, as `str::parse`
/// does for an unsigned type whose largest value is `max`.
pub fn parse_unsigned_exec(s: &str, max: u64) -> (r: Option<u64>)
    ensures
        r is Some <==> parse_unsigned(s@, max as int) is Some,
        r is Some ==> r->0 == parse_unsigned(s@, max as int)->0,
{
    let v = crate::text::chars_of(s);
    if v.len() > 0 && v[0] == '+' {
        assert(v@.skip(1) == v@.drop_first());
        parse_digits(&v, 1, max)
    } else {
        assert(v@.skip(0) == v@);
        parse_digits(&v, 0, max)
    }
}

/// `str::parse::<u16>`, as an option.
pub fn parse_u16(s: &str) -> (r: Option<u16>)
    ensures
        r is Some <==> parse_unsigned(s@, u16::MAX as int) is Some,
        r is Some ==> r->0 == parse_unsigned(s@, u16::MAX as int)->0,
{
    match parse_unsigned_exec(s, 0xffff) {
        Some(n) => Some(n as u16),
        None => None,
    }
}

/// `str::parse::<u64>`, as an option.
pub fn parse_u64(s: &str) -> (r: Option<u64>)
    ensures
        r is Some <==> parse_unsigned(s@, u64::MAX as int) is Some,
        r is Some ==> r->0 == parse_unsigned(s@, u64::MAX as int)->0,
{
    parse_unsigned_exec(s, 0xffff_ffff_ffff_ffff)
}

/// `str::parse::<usize>`, as an option.
pub fn parse_usize(s: &str) -> (r: Option<usize>)
    ensures
        r is Some <==> parse_unsigned(s@, usize::MAX as int) is Some,
        r is Some ==> r->0 == parse_unsigned(s@, usize::MAX as int)->0,
{
    match parse_unsigned_exec(s, usize::MAX as u64) {
        Some(n) => Some(n as usize),
        None => None,
    }
}

/// `str::parse::<u32>`, as an option.
pub fn parse_u32(s: &str) -> (r: Option<u32>)
    ensures
        r is Some <==> parse_unsigned(s@, u32::MAX as int) is Some,
        r is Some ==> r->0 == parse_unsigned(s@, u32::MAX as int)->0,
{
    match parse_unsigned_exec(s, 0xffff_ffff) {
        Some(n) => Some(n as u32),
        None => None,
    }
}

/// `str::parse::<i64>`, as an option.
pub fn parse_i64(s: &str) -> (r: Option<i64>)
    ensures
        r is Some <==> parse_signed(s@, i64::MAX as int) is Some,
        r is Some ==> r->0 == parse_signed(s@, i64::MAX as int)->0,
{
    let v = crate::text::chars_of(s);
    if v.len() > 0 && v[0] == '-' {
        assert(v@.skip(1) == v@.drop_first());
        match parse_digits(&v, 1, 0x8000_0000_0000_0000) {
            Some(n) => {
                if n == 0x8000_0000_0000_0000 {
                    Some(i64::MIN)
                } else {
                    Some(-(n as i64))
                }
            },
            None => None,
        }
    } else {
        match parse_unsigned_exec(s, 0x7fff_ffff_ffff_ffff) {
            Some(n) => Some(n as i64),
            None => None,
        }
    }
}

/// Appends the decimal notation of `n`.
pub fn push_decimal(out: &mut String, n: u64)
    ensures
        final(out)@ == old(out)@ + decimal(n as nat),
    decreases n,
{
    if n >= 10 {
        push_decimal(out, n / 10);
    }
    let d = (n % 10) as u8;
    out.push((d + 48) as char);
    proof {
        if n < 10 {
            assert(n % 10 == n);
        }
    }
}

/// The decimal notation of `n` (as `u64::to_string`).
pub fn u64_to_decimal(n: u64) -> (r: String)
    ensures
        r@ == decimal(n as nat),
{
    let mut r = String::new();
    push_decimal(&mut r, n);
    assert(r@ =~= decimal(n as nat));
    r
}

/// The decimal notation of `n` (as `i64::to_string`).
pub fn i64_to_decimal(n: i64) -> (r: String)
    ensures
        r@ == signed_decimal(n as int),
{
    let mut r = String::new();
    if n < 0 {
        r.push('-');
        let m: u64 = if n == i64::MIN { 0x8000_0000_0000_0000 } else { (-n) as u64 };
        push_decimal(&mut r, m);
    } else {
        push_decimal(&mut r, n as u64);
    }
    assert(r@ =~= signed_decimal(n as int));
    r
}

// ---------------------------------------------------------------------------
// Hexadecimal
// ---------------------------------------------------------------------------

/// The lower-case character of a hexadecimal digit below 16.
pub open spec fn hex_char(d: nat) -> char {
    if d < 10 {
        ((d + 48) as u8) as char
    } else {
        ((d + 87) as u8) as char
    }
}

/// The last `width` hexadecimal digits of `n`, lower case, most significant
/// first (as `{:0width$x}` for a number below `16^width`).
pub open spec fn hex_digits(n: nat, width: nat) -> Seq<char>
    decreases width,
{
    if width == 0 {
        Seq::<char>::empty()
    } else {
        hex_digits(n / 16, (width - 1) as nat).push(hex_char(n % 16))
    }
}

fn hex_char_exec(d: u64) -> (c: char)
    requires
        d < 16,
    ensures
        c == hex_char(d as nat),
{
    if d < 10 {
        ((d as u8) + 48) as char
    } else {
        ((d as u8) + 87) as char
    }
}

/// Appends the last `width` hexadecimal digits of `n`.
pub fn push_hex(out: &mut String, n: u64, width: u64)
    ensures
        final(out)@ == old(out)@ + hex_digits(n as nat, width as nat),
    decreases width,
{
    if width > 0 {
        push_hex(out, n / 16, width - 1);
        out.push(hex_char_exec(n % 16));
    }
}

/// Sixteen lower-case hexadecimal digits of `n` (as `format!("{:016x}", n)`).
pub fn hex16(n: u64) -> (r: String)
    ensures
        r@ == hex_digits(n as nat, 16),
{
    let mut r = String::new();
    push_hex(&mut r, n, 16);
    assert(r@ =~= hex_digits(n as nat, 16));
    r
}

/// Two lower-case hexadecimal digits per byte (as the `{:x}` notation of a
/// digest).
pub open spec fn hex_bytes(b: Seq<u8>) -> Seq<char>
    decreases b.len(),
{
    if b.len() == 0 {
        Seq::<char>::empty()
    } else {
        hex_bytes(b.drop_last()) + hex_digits(b.last() as nat, 2)
    }
}

/// `width` digits.
pub proof fn lemma_hex_digits_len(n: nat, width: nat)
    ensures
        hex_digits(n, width).len() == width,
    decreases width,
{
    if width > 0 {
        lemma_hex_digits_len(n / 16, (width - 1) as nat);
    }
}

/// Two digits per byte.
pub proof fn lemma_hex_bytes_len(b: Seq<u8>)
    ensures
        hex_bytes(b).len() == 2 * b.len(),
    decreases b.len(),
{
    if b.len() > 0 {
        lemma_hex_bytes_len(b.drop_last());
        lemma_hex_digits_len(b.last() as nat, 2);
    }
}

pub fn hex_of_bytes(b: &Vec<u8>) -> (r: String)
    ensures
        r@ == hex_bytes(b@),
{
    let mut r = String::new();
    let mut i: usize = 0;
    while i < b.len()
        invariant
            i <= b.len(),
            r@ == hex_bytes(b@.take(i as int)),
        decreases b.len() - i,
    {
        push_hex(&mut r, b[i] as u64, 2);
        assert(b@.take(i + 1).drop_last() == b@.take(i as int));
        i = i + 1;
    }
    assert(b@.take(b.len() as int) == b@);
    r
}

} // verus!

//! Text codecs of the scalar field types.
//!
//! Every scalar field of a command travels as text.  This module says, as
//! spec functions over `Seq<char>`, how an integer or a boolean is written
//! and how text is read back, and implements both directions.  Reading and
//! writing are inverse to each other on everything that writing produces.

use vstd::prelude::*;
use vstd::string::*;

verus! {

/// Why a piece of text is not a value of the scalar type asked for.
#[derive(Clone, Copy, Debug, PartialEq, Eq, Structural)]
pub enum ParseError {
    /// The text is empty where an integer is expected.
    Empty,
    /// A character that is no decimal digit, or a sign without digits.
    InvalidDigit,
    /// The number is greater than the target type holds.
    PosOverflow,
    /// The number is less than the target type holds.
    NegOverflow,
    /// The text is neither `true` nor `false`.
    NotBool,
}

impl ParseError {
    /// The text of the message for this error.
    pub open spec fn message_text(self) -> Seq<char> {
        match self {
            ParseError::Empty => "cannot parse integer from empty string"@,
            ParseError::InvalidDigit => "invalid digit found in string"@,
            ParseError::PosOverflow => "number too large to fit in target type"@,
            ParseError::NegOverflow => "number too small to fit in target type"@,
            ParseError::NotBool => "provided string was not `true` or `false`"@,
        }
    }

    /// A human-readable description of the error.
    pub fn message(&self) -> (r: String)
        ensures
            r@ == self.message_text(),
    {
        match self {
            ParseError::Empty => String::from_str("cannot parse integer from empty string"),
            ParseError::InvalidDigit => String::from_str("invalid digit found in string"),
            ParseError::PosOverflow => String::from_str("number too large to fit in target type"),
            ParseError::NegOverflow => String::from_str("number too small to fit in target type"),
            ParseError::NotBool => String::from_str("provided string was not `true` or `false`"),
        }
    }
}

/// Appends one character to a string.
///
/// Trusted: stands for `String::push`, which appends the given `char` to the
/// end of the string.
#[verifier::external_body]
pub(crate) fn push_char(s: &mut String, c: char)
    ensures
        final(s)@ == old(s)@.push(c),
{
    s.push(c)
}

// ---------------------------------------------------------------------------
// Decimal notation
// ---------------------------------------------------------------------------

/// `c` is one of the ten ASCII decimal digits.
pub open spec fn is_digit(c: char) -> bool {
    '0' <= c <= '9'
}

/// The number that the digit `c` stands for.
pub open spec fn digit_value(c: char) -> int {
    c as int - 48
}

/// The digit that stands for `d`, for `0 <= d < 10`.
pub open spec fn digit_char(d: int) -> char {
    (d + 48) as char
}

/// The number that a sequence of digits denotes, most significant first.
pub open spec fn digits_value(s: Seq<char>) -> int
    decreases s.len(),
{
    if s.len() == 0 {
        0
    } else {
        digits_value(s.drop_last()) * 10 + digit_value(s.last())
    }
}

/// The length of the longest prefix of `s` that holds digits only.
pub open spec fn digit_prefix_len(s: Seq<char>) -> nat
    decreases s.len(),
{
    if s.len() == 0 || !is_digit(s[0]) {
        0
    } else {
        1 + digit_prefix_len(s.drop_first())
    }
}

/// The number of leading sign characters of `s` that an integer of the given
/// signedness accepts: one for a leading `+`, one for a leading `-` where the
/// type is signed, none otherwise.
pub open spec fn sign_len(s: Seq<char>, signed: bool) -> int {
    if s.len() > 0 && (s[0] == '+' || (signed && s[0] == '-')) {
        1
    } else {
        0
    }
}

/// What reading `s` as a decimal integer in `lo ..= hi` gives.
///
/// The text is an optional sign followed by digits.  The digits are read from
/// the left: the first character that is no digit is an error unless the
/// digits before it already left the range, which is the error then.
pub open spec fn parse_int(s: Seq<char>, signed: bool, lo: int, hi: int) -> Result<
    int,
    ParseError,
> {
    if s.len() == 0 {
        Err(ParseError::Empty)
    } else {
        let negative = signed && s[0] == '-';
        let body = s.skip(sign_len(s, signed));
        let digits = body.take(digit_prefix_len(body) as int);
        let value = if negative {
            -digits_value(digits)
        } else {
            digits_value(digits)
        };
        if body.len() == 0 {
            Err(ParseError::InvalidDigit)
        } else if value > hi {
            Err(ParseError::PosOverflow)
        } else if value < lo {
            Err(ParseError::NegOverflow)
        } else if digits.len() < body.len() {
            Err(ParseError::InvalidDigit)
        } else {
            Ok(value)
        }
    }
}

/// The decimal digits of `n`, without leading zeros.
pub open spec fn decimal(n: nat) -> Seq<char>
    decreases n,
{
    if n < 10 {
        seq![digit_char(n as int)]
    } else {
        decimal(n / 10).push(digit_char((n % 10) as int))
    }
}

/// How an integer is written: its decimal digits, after `-` if it is
/// negative.
pub open spec fn render_int(v: int) -> Seq<char> {
    if v < 0 {
        seq!['-'] + decimal((-v) as nat)
    } else {
        decimal(v as nat)
    }
}

/// How a boolean is written.
pub open spec fn render_bool(b: bool) -> Seq<char> {
    if b {
        "true"@
    } else {
        "false"@
    }
}

/// What reading `s` as a boolean gives.
pub open spec fn parse_bool(s: Seq<char>) -> Result<bool, ParseError> {
    if s == "true"@ {
        Ok(true)
    } else if s == "false"@ {
        Ok(false)
    } else {
        Err(ParseError::NotBool)
    }
}

// ---------------------------------------------------------------------------
// Lemmas on decimal notation
// ---------------------------------------------------------------------------

/// A run of `k` digits that ends the text or is followed by a character that
/// is no digit is the longest digit prefix.
pub proof fn lemma_digit_prefix(s: Seq<char>, k: int)
    requires
        0 <= k <= s.len(),
        forall|j: int| 0 <= j < k ==> is_digit(#[trigger] s[j]),
        k == s.len() || !is_digit(s[k]),
    ensures
        digit_prefix_len(s) == k,
    decreases k,
{
    if k > 0 {
        let t = s.drop_first();
        assert forall|j: int| 0 <= j < k - 1 implies is_digit(#[trigger] t[j]) by {
            assert(t[j] == s[j + 1]);
        }
        lemma_digit_prefix(t, k - 1);
    }
}

/// Every character of the longest digit prefix is a digit.
pub proof fn lemma_digit_prefix_digits(s: Seq<char>)
    ensures
        digit_prefix_len(s) <= s.len(),
        forall|j: int| 0 <= j < digit_prefix_len(s) ==> is_digit(#[trigger] s[j]),
        digit_prefix_len(s) < s.len() ==> !is_digit(s[digit_prefix_len(s) as int]),
    decreases s.len(),
{
    if s.len() > 0 && is_digit(s[0]) {
        let t = s.drop_first();
        lemma_digit_prefix_digits(t);
        assert forall|j: int| 0 <= j < digit_prefix_len(s) implies is_digit(#[trigger] s[j]) by {
            if j > 0 {
                assert(s[j] == t[j - 1]);
            }
        }
    }
}

/// The value of a digit sequence is not negative, and no prefix of it has a
/// greater value.
pub proof fn lemma_digits_value_monotonic(s: Seq<char>, k: int)
    requires
        0 <= k <= s.len(),
        forall|j: int| 0 <= j < s.len() ==> is_digit(#[trigger] s[j]),
    ensures
        0 <= digits_value(s.take(k)) <= digits_value(s),
    decreases s.len() - k,
{
    lemma_digits_value_nonnegative(s.take(k));
    if k < s.len() {
        let t = s.drop_last();
        assert(t.take(k) =~= s.take(k));
        lemma_digits_value_monotonic(t, k);
        lemma_digits_value_nonnegative(t);
    } else {
        assert(s.take(k) =~= s);
    }
}

/// The value of a digit sequence is not negative.
pub proof fn lemma_digits_value_nonnegative(s: Seq<char>)
    requires
        forall|j: int| 0 <= j < s.len() ==> is_digit(#[trigger] s[j]),
    ensures
        0 <= digits_value(s),
    decreases s.len(),
{
    if s.len() > 0 {
        lemma_digits_value_nonnegative(s.drop_last());
    }
}

/// What `decimal` writes: at least one digit, digits only, with the value
/// that was written.
pub proof fn lemma_decimal(n: nat)
    ensures
        decimal(n).len() >= 1,
        forall|j: int| 0 <= j < decimal(n).len() ==> is_digit(#[trigger] decimal(n)[j]),
        digits_value(decimal(n)) == n,
    decreases n,
{
    if n < 10 {
        let s = decimal(n);
        assert(s.drop_last() =~= Seq::<char>::empty());
        assert(digits_value(s.drop_last()) == 0);
    } else {
        lemma_decimal(n / 10);
        let s = decimal(n);
        assert(s.drop_last() =~= decimal(n / 10));
    }
}

/// Reading what was written gives the number back: for every integer `v` of
/// the range, signed or not, `parse_int(render_int(v)) == Ok(v)`.
pub proof fn lemma_int_round_trip(v: int, signed: bool, lo: int, hi: int)
    requires
        lo <= v <= hi,
        v < 0 ==> signed,
    ensures
        parse_int(render_int(v), signed, lo, hi) == Ok::<int, ParseError>(v),
{
    let s = render_int(v);
    let m: nat = if v < 0 {
        (-v) as nat
    } else {
        v as nat
    };
    lemma_decimal(m);
    let d = decimal(m);
    assert(is_digit(d[0]));
    let body = s.skip(sign_len(s, signed));
    if v < 0 {
        assert(s[0] == '-');
        assert(body =~= d);
    } else {
        assert(s[0] == d[0]);
        assert(body =~= d);
    }
    lemma_digit_prefix(body, body.len() as int);
    assert(body.take(body.len() as int) =~= body);
}

/// Reading what was written gives the boolean back.
pub proof fn lemma_bool_round_trip(b: bool)
    ensures
        parse_bool(render_bool(b)) == Ok::<bool, ParseError>(b),
{
    reveal_strlit("true");
    reveal_strlit("false");
    assert("true"@.len() != "false"@.len());
}

// ---------------------------------------------------------------------------
// Writing
// ---------------------------------------------------------------------------

/// The character for the digit `d`.
fn digit_of(d: u8) -> (c: char)
    requires
        d < 10,
    ensures
        c == digit_char(d as int),
{
    (48u8 + d) as char
}

/// Appends the decimal digits of `n` to `out`.
fn push_decimal(out: &mut String, n: u64)
    ensures
        final(out)@ == old(out)@ + decimal(n as nat),
    decreases n,
{
    if n >= 10 {
        push_decimal(out, n / 10);
    }
    let d: u8 = (n % 10) as u8;
    push_char(out, digit_of(d));
    assert(out@ =~= old(out)@ + decimal(n as nat));
}

/// Writes a `u8` in decimal.
pub fn render_u8(v: u8) -> (r: String)
    ensures
        r@ == render_int(v as int),
{
    let mut out = String::new();
    push_decimal(&mut out, v as u64);
    assert(out@ =~= render_int(v as int));
    out
}

/// Writes a `u16` in decimal.
pub fn render_u16(v: u16) -> (r: String)
    ensures
        r@ == render_int(v as int),
{
    let mut out = String::new();
    push_decimal(&mut out, v as u64);
    assert(out@ =~= render_int(v as int));
    out
}

/// Writes a `u32` in decimal.
pub fn render_u32(v: u32) -> (r: String)
    ensures
        r@ == render_int(v as int),
{
    let mut out = String::new();
    push_decimal(&mut out, v as u64);
    assert(out@ =~= render_int(v as int));
    out
}

/// Writes an `i32` in decimal, with a leading `-` if it is negative.
pub fn render_i32(v: i32) -> (r: String)
    ensures
        r@ == render_int(v as int),
{
    let mut out = String::new();
    if v < 0 {
        push_char(&mut out, '-');
        let magnitude: i64 = -(v as i64);
        push_decimal(&mut out, magnitude as u64);
        assert(out@ =~= render_int(v as int));
    } else {
        push_decimal(&mut out, v as u64);
        assert(out@ =~= render_int(v as int));
    }
    out
}

/// Writes a boolean as `true` or `false`.
pub fn render_flag(b: bool) -> (r: String)
    ensures
        r@ == render_bool(b),
{
    if b {
        String::from_str("true")
    } else {
        String::from_str("false")
    }
}

// ---------------------------------------------------------------------------
// Reading
// ---------------------------------------------------------------------------

/// Whether two pieces of text hold the same characters.
pub fn text_eq(a: &str, b: &str) -> (r: bool)
    ensures
        r == (a@ == b@),
{
    let x = a.as_bytes();
    let y = b.as_bytes();
    proof {
        vstd::utf8::encode_utf8_decode_utf8(a@);
        vstd::utf8::encode_utf8_decode_utf8(b@);
    }
    if x.len() != y.len() {
        return false;
    }
    let mut i: usize = 0;
    while i < x.len()
        invariant
            i <= x.len(),
            x.len() == y.len(),
            x@ == a.spec_bytes(),
            y@ == b.spec_bytes(),
            forall|j: int| 0 <= j < i ==> x@[j] == y@[j],
        decreases x.len() - i,
    {
        if x[i] != y[i] {
            return false;
        }
        i = i + 1;
    }
    assert(x@ =~= y@);
    true
}

/// Reads a decimal integer of the range `lo ..= hi`.
fn read_int(s: &str, signed: bool, lo: i64, hi: i64) -> (r: Result<i64, ParseError>)
    requires
        -0x1_0000_0000 <= lo <= 0 <= hi <= 0x1_0000_0000,
    ensures
        match r {
            Ok(v) => parse_int(s@, signed, lo as int, hi as int) == Ok::<int, ParseError>(v as int),
            Err(e) => parse_int(s@, signed, lo as int, hi as int) == Err::<int, ParseError>(e),
        },
{
    let mut acc: i64 = 0;
    let mut negative = false;
    let mut at_start = true;
    let mut seen_digit = false;
    let ghost start = sign_len(s@, signed);
    for c in iter: s.chars()
        invariant
            iter.seq() == s@,
            start == sign_len(s@, signed),
            -0x1_0000_0000 <= lo <= 0 <= hi <= 0x1_0000_0000,
            at_start == (iter.index() == 0),
            at_start ==> acc == 0 && !negative && !seen_digit,
            !at_start ==> {
                &&& negative == (signed && s@[0] == '-')
                &&& start <= iter.index()
                &&& seen_digit == (start < iter.index())
                &&& forall|j: int| start <= j < iter.index() ==> is_digit(#[trigger] s@[j])
                &&& acc == if negative {
                    -digits_value(s@.subrange(start, iter.index()))
                } else {
                    digits_value(s@.subrange(start, iter.index()))
                }
                &&& lo <= acc <= hi
            },
    {
        let ghost i = iter.index();
        let ghost body = s@.skip(start);
        if at_start && (c == '+' || (signed && c == '-')) {
            at_start = false;
            negative = c == '-';
            assert(s@.subrange(start, i + 1) =~= Seq::<char>::empty());
        } else {
            if at_start {
                at_start = false;
                assert(s@.subrange(start, i) =~= Seq::<char>::empty());
            }
            proof {
                assert forall|j: int| 0 <= j < i - start implies is_digit(#[trigger] body[j]) by {
                    assert(body[j] == s@[j + start]);
                }
                assert(body.take(i - start) =~= s@.subrange(start, i));
                assert(body[i - start] == c);
            }
            if !('0' <= c && c <= '9') {
                proof {
                    lemma_digit_prefix(body, i - start);
                }
                return Err(ParseError::InvalidDigit);
            }
            let d: i64 = (c as u32 - 48) as i64;
            let next: i64 = if negative {
                acc * 10 - d
            } else {
                acc * 10 + d
            };
            proof {
                let upto = s@.subrange(start, i + 1);
                assert(upto.drop_last() =~= s@.subrange(start, i));
                assert(upto.last() == c);
                assert(d == digit_value(c));
                assert(digits_value(upto) == digits_value(upto.drop_last()) * 10 + d);
                assert(next == if negative {
                    -digits_value(upto)
                } else {
                    digits_value(upto)
                });
                if next > hi || next < lo {
                    // the digits that follow only take the number further out of the range
                    lemma_digit_prefix_digits(body);
                    let digits = body.take(digit_prefix_len(body) as int);
                    assert(digits.take(i - start + 1) =~= upto);
                    lemma_digits_value_monotonic(digits, i - start + 1);
                }
            }
            if next > hi {
                return Err(ParseError::PosOverflow);
            }
            if next < lo {
                return Err(ParseError::NegOverflow);
            }
            acc = next;
            seen_digit = true;
        }
    }
    let ghost n = s@.len() as int;
    if at_start {
        return Err(ParseError::Empty);
    }
    let ghost body = s@.skip(start);
    proof {
        assert forall|j: int| 0 <= j < n - start implies is_digit(#[trigger] body[j]) by {
            assert(body[j] == s@[j + start]);
        }
        lemma_digit_prefix(body, n - start);
        assert(body.take(n - start) =~= s@.subrange(start, n));
    }
    if !seen_digit {
        return Err(ParseError::InvalidDigit);
    }
    Ok(acc)
}

/// Reads a `u8` written in decimal.
pub fn read_u8(s: &str) -> (r: Result<u8, ParseError>)
    ensures
        match r {
            Ok(v) => parse_int(s@, false, 0, 255) == Ok::<int, ParseError>(v as int),
            Err(e) => parse_int(s@, false, 0, 255) == Err::<int, ParseError>(e),
        },
{
    match read_int(s, false, 0, 255) {
        Ok(v) => Ok(v as u8),
        Err(e) => Err(e),
    }
}

/// Reads a `u32` written in decimal.
pub fn read_u32(s: &str) -> (r: Result<u32, ParseError>)
    ensures
        match r {
            Ok(v) => parse_int(s@, false, 0, 0xffff_ffff) == Ok::<int, ParseError>(v as int),
            Err(e) => parse_int(s@, false, 0, 0xffff_ffff) == Err::<int, ParseError>(e),
        },
{
    match read_int(s, false, 0, 0xffff_ffff) {
        Ok(v) => Ok(v as u32),
        Err(e) => Err(e),
    }
}

/// Reads an `i32` written in decimal.
pub fn read_i32(s: &str) -> (r: Result<i32, ParseError>)
    ensures
        match r {
            Ok(v) => parse_int(s@, true, -0x8000_0000, 0x7fff_ffff) == Ok::<int, ParseError>(
                v as int,
            ),
            Err(e) => parse_int(s@, true, -0x8000_0000, 0x7fff_ffff) == Err::<int, ParseError>(e),
        },
{
    match read_int(s, true, -0x8000_0000, 0x7fff_ffff) {
        Ok(v) => Ok(v as i32),
        Err(e) => Err(e),
    }
}

/// Reads a boolean written as `true` or `false`.
pub fn read_flag(s: &str) -> (r: Result<bool, ParseError>)
    ensures
        r == parse_bool(s@),
{
    if text_eq(s, "true") {
        Ok(true)
    } else if text_eq(s, "false") {
        Ok(false)
    } else {
        Err(ParseError::NotBool)
    }
}

} // verus!

//! Text helpers shared by the election logic: string comparison, decimal
//! rendering of counts and case folding.

use vstd::prelude::*;

verus! {

/// Whether two string slices hold the same characters.
pub fn str_eq(a: &str, b: &str) -> (r: bool)
    ensures
        r == (a@ == b@),
{
    let x = a.to_owned();
    let y = b.to_owned();
    x == y
}

/// The ASCII digit for `d`, which must be below ten.
pub open spec fn digit_char(d: nat) -> char {
    "0123456789"@[d as int]
}

/// The decimal representation of `n`, most significant digit first, with no
/// leading zeros (zero itself is written `0`).
pub open spec fn decimal(n: nat) -> Seq<char>
    decreases n,
{
    if n < 10 {
        seq![digit_char(n)]
    } else {
        decimal(n / 10) + seq![digit_char(n % 10)]
    }
}

/// Appends the decimal representation of `n` to `out`.
pub fn push_decimal(out: &mut String, n: u32)
    ensures
        final(out)@ == old(out)@ + decimal(n as nat),
    decreases n,
{
    let digits = "0123456789";
    proof {
        reveal_strlit("0123456789");
    }
    if n >= 10 {
        push_decimal(out, n / 10);
    }
    let d: usize = (n % 10) as usize;
    let piece = digits.substring_char(d, d + 1);
    out.append(piece);
    assert(piece@ =~= seq![digit_char((n % 10) as nat)]);
}

/// The value of the digit character `c`.
pub open spec fn digit_value(c: char) -> int {
    c as int - '0' as int
}

/// Every character of `s` is an ASCII decimal digit.
pub open spec fn all_digits(s: Seq<char>) -> bool {
    forall|i: int| 0 <= i < s.len() ==> '0' <= #[trigger] s[i] <= '9'
}

/// The number that the digits `s` denote in base ten, most significant
/// first.
pub open spec fn digits_value(s: Seq<char>) -> int
    decreases s.len(),
{
    if s.len() == 0 {
        0
    } else {
        digits_value(s.drop_last()) * 10 + digit_value(s.last())
    }
}

/// The digit character for `d` is the character `d` places after `0`.
proof fn lemma_digit_char(d: nat)
    requires
        d < 10,
    ensures
        digit_char(d) as int == '0' as int + d,
{
    reveal_strlit("0123456789");
    if d == 0 {
    } else if d == 1 {
    } else if d == 2 {
    } else if d == 3 {
    } else if d == 4 {
    } else if d == 5 {
    } else if d == 6 {
    } else if d == 7 {
    } else if d == 8 {
    } else {
        assert(d == 9);
    }
}

/// The decimal representation of `n` is the standard base-ten numeral of
/// `n`: one or more ASCII digits, each the character `0` moved up by the
/// digit's value, that read back as `n`, with no leading zero.
pub proof fn law_decimal_denotes(n: nat)
    ensures
        decimal(n).len() >= 1,
        all_digits(decimal(n)),
        digits_value(decimal(n)) == n,
        decimal(n).len() > 1 ==> decimal(n)[0] != '0',
        n >= 1 ==> decimal(n)[0] != '0',
    decreases n,
{
    assert(digits_value(Seq::<char>::empty()) == 0);
    if n < 10 {
        lemma_digit_char(n);
        let s = decimal(n);
        assert(s.drop_last() =~= Seq::<char>::empty());
        assert(s.last() == digit_char(n));
        assert(digits_value(s) == digit_value(digit_char(n)));
    } else {
        law_decimal_denotes(n / 10);
        lemma_digit_char(n % 10);
        let s = decimal(n);
        assert(s.drop_last() =~= decimal(n / 10));
        assert(s.last() == digit_char(n % 10));
        assert(s[0] == decimal(n / 10)[0]);
        assert(n == (n / 10) * 10 + n % 10) by (nonlinear_arith);
        assert(digits_value(s) == digits_value(decimal(n / 10)) * 10 + digit_value(digit_char(n % 10)));
    }
}

/// Scanning digits that end without error, then more text, continues the
/// scan of the further text from the value the first digits gave.
proof fn lemma_scan_append(s: Seq<char>, t: Seq<char>, acc: int)
    requires
        -128 <= acc <= 127,
        scan_digits(s, false, acc) is Ok,
    ensures
        scan_digits(s + t, false, acc) == scan_digits(t, false, scan_digits(s, false, acc)->Ok_0 as int),
    decreases s.len(),
{
    if s.len() == 0 {
        assert(s + t =~= t);
    } else {
        let d = s[0] as int - '0' as int;
        let next = acc * 10 + d;
        assert((s + t)[0] == s[0]);
        assert((s + t).skip(1) =~= s.skip(1) + t);
        lemma_scan_append(s.skip(1), t, next);
    }
}

/// Reading the decimal representation of a number up to `127` gives the
/// number back.
proof fn lemma_scan_decimal(m: nat)
    requires
        m <= 127,
    ensures
        scan_digits(decimal(m), false, 0) == Ok::<i8, NumberError>(m as i8),
    decreases m,
{
    if m < 10 {
        lemma_digit_char(m);
        assert(decimal(m).skip(1) =~= Seq::<char>::empty());
        assert(scan_digits(Seq::<char>::empty(), false, m as int) == Ok::<i8, NumberError>(m as i8));
    } else {
        lemma_scan_decimal(m / 10);
        lemma_digit_char(m % 10);
        let last = seq![digit_char(m % 10)];
        assert(decimal(m) == decimal(m / 10) + last);
        lemma_scan_append(decimal(m / 10), last, 0);
        assert(m == (m / 10) * 10 + m % 10) by (nonlinear_arith);
        assert(last.skip(1) =~= Seq::<char>::empty());
        assert(scan_digits(Seq::<char>::empty(), false, m as int) == Ok::<i8, NumberError>(m as i8));
        assert(scan_digits(last, false, (m / 10) as int) == Ok::<i8, NumberError>(m as i8));
    }
}

/// Reading the decimal representation of any number up to `i8::MAX` as an
/// `i8` gives that number: parsing undoes the rendering.
pub proof fn law_parse_reads_decimal(m: nat)
    requires
        m <= 127,
    ensures
        parsed_i8(decimal(m)) == Ok::<i8, NumberError>(m as i8),
{
    law_decimal_denotes(m);
    lemma_scan_decimal(m);
    assert('0' <= decimal(m)[0] <= '9');
}

} // verus!

verus! {

/// What `str::to_lowercase` gives for a string: its Unicode lowercase
/// mapping.
pub uninterp spec fn lowercase(s: Seq<char>) -> Seq<char>;

/// Calls `str::to_lowercase`, whose result depends on the string alone (the
/// Unicode lowercase mapping, independent of any locale); the contract names
/// that result and says nothing more of it.
#[verifier::external_body]
pub(crate) fn to_lowercase(s: &str) -> (r: String)
    ensures
        r@ == lowercase(s@),
{
    s.to_lowercase()
}

/// Why a string is not a decimal `i8`.
#[derive(Debug, Clone, Copy, PartialEq, Eq, Structural)]
pub enum NumberError {
    /// The string is empty.
    Empty,
    /// A character is not a decimal digit, or a sign stands alone.
    InvalidDigit,
    /// The number is above `i8::MAX`.
    TooLarge,
    /// The number is below `i8::MIN`.
    TooSmall,
}

/// Whether `c` is an ASCII decimal digit.
pub open spec fn is_digit(c: char) -> bool {
    '0' <= c <= '9'
}

/// Reads the digits `ds` left to right onto the running value `acc`,
/// subtracting each digit when `negative`; stops at the first character that
/// is not a digit and at the first step that leaves the `i8` range.
pub open spec fn scan_digits(ds: Seq<char>, negative: bool, acc: int) -> Result<i8, NumberError>
    decreases ds.len(),
{
    if ds.len() == 0 {
        Ok(acc as i8)
    } else if !is_digit(ds[0]) {
        Err(NumberError::InvalidDigit)
    } else {
        let d = ds[0] as int - '0' as int;
        let next = if negative {
            acc * 10 - d
        } else {
            acc * 10 + d
        };
        if next > 127 {
            Err(NumberError::TooLarge)
        } else if next < -128 {
            Err(NumberError::TooSmall)
        } else {
            scan_digits(ds.skip(1), negative, next)
        }
    }
}

/// The `i8` that the decimal string `s` denotes, as `str::parse::<i8>` reads
/// it: an optional sign `+` or `-`, then one or more ASCII digits.
pub open spec fn parsed_i8(s: Seq<char>) -> Result<i8, NumberError> {
    if s.len() == 0 {
        Err(NumberError::Empty)
    } else if (s[0] == '+' || s[0] == '-') && s.len() == 1 {
        Err(NumberError::InvalidDigit)
    } else if s[0] == '+' {
        scan_digits(s.skip(1), false, 0)
    } else if s[0] == '-' {
        scan_digits(s.skip(1), true, 0)
    } else {
        scan_digits(s, false, 0)
    }
}

/// Reads `s` as a decimal `i8`: an optional sign, then ASCII digits.
pub fn parse_i8(s: &str) -> (r: Result<i8, NumberError>)
    ensures
        r == parsed_i8(s@),
{
    let len = s.unicode_len();
    if len == 0 {
        return Err(NumberError::Empty);
    }
    let first = s.get_char(0);
    if (first == '+' || first == '-') && len == 1 {
        return Err(NumberError::InvalidDigit);
    }
    let negative = first == '-';
    let start: usize = if first == '+' || first == '-' { 1 } else { 0 };
    assert(s@.skip(0) =~= s@);
    let mut acc: i8 = 0;
    let mut i: usize = start;
    while i < len
        invariant
            len == s@.len(),
            start <= i <= len,
            scan_digits(s@.skip(i as int), negative, acc as int) == parsed_i8(s@),
        decreases len - i,
    {
        let c = s.get_char(i);
        assert(s@.skip(i as int)[0] == c);
        if !('0' <= c && c <= '9') {
            return Err(NumberError::InvalidDigit);
        }
        let d: i8 = ((c as u32) - ('0' as u32)) as i8;
        let wide: i32 = (acc as i32) * 10;
        let next: i32 = if negative { wide - (d as i32) } else { wide + (d as i32) };
        if next > 127 {
            return Err(NumberError::TooLarge);
        }
        if next < -128 {
            return Err(NumberError::TooSmall);
        }
        assert(s@.skip(i as int).skip(1) =~= s@.skip(i + 1));
        acc = next as i8;
        i = i + 1;
    }
    assert(s@.skip(len as int) =~= Seq::<char>::empty());
    Ok(acc)
}

} // verus!

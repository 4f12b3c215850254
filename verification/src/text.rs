//! Character-level helpers shared by the XML reader and writer: character
//! classes, conversion between `String` and `Vec<char>`, and decimal
//! rendering / reading of the integer-valued scenario fields.

use vstd::prelude::*;

verus! {

/// Whitespace as the XML reader skips it between markup.
pub open spec fn is_ws_char(c: char) -> bool {
    c == ' ' || c == '\t' || c == '\r' || c == '\n'
}

/// Characters accepted inside an element or attribute name.
pub open spec fn is_name_char(c: char) -> bool {
    ('a' <= c && c <= 'z') || ('A' <= c && c <= 'Z') || ('0' <= c && c <= '9') || c == '_'
        || c == '-'
}

/// A well-formed markup name: nonempty and made of name characters only.
pub open spec fn is_name(s: Seq<char>) -> bool {
    s.len() > 0 && forall|i: int| 0 <= i < s.len() ==> is_name_char(s[i])
}

/// Executable test matching [`is_ws_char`].
pub fn ws_char(c: char) -> (r: bool)
    ensures
        r == is_ws_char(c),
{
    c == ' ' || c == '\t' || c == '\r' || c == '\n'
}

/// Executable test matching [`is_name_char`].
pub fn name_char(c: char) -> (r: bool)
    ensures
        r == is_name_char(c),
{
    ('a' <= c && c <= 'z') || ('A' <= c && c <= 'Z') || ('0' <= c && c <= '9') || c == '_'
        || c == '-'
}

/// A decimal digit.
pub open spec fn is_digit(c: char) -> bool {
    '0' <= c && c <= '9'
}

/// Executable test matching [`is_digit`].
pub fn digit_char_test(c: char) -> (r: bool)
    ensures
        r == is_digit(c),
{
    '0' <= c && c <= '9'
}

/// The digit character for a value below ten.
pub open spec fn digit_char(d: nat) -> char {
    if d == 0 {
        '0'
    } else if d == 1 {
        '1'
    } else if d == 2 {
        '2'
    } else if d == 3 {
        '3'
    } else if d == 4 {
        '4'
    } else if d == 5 {
        '5'
    } else if d == 6 {
        '6'
    } else if d == 7 {
        '7'
    } else if d == 8 {
        '8'
    } else {
        '9'
    }
}

/// The value of a digit character.
pub open spec fn digit_val(c: char) -> nat {
    ((c as int) - 48) as nat
}

/// Every string of digits, most significant first, names a number.
pub open spec fn digits_val(s: Seq<char>) -> nat
    decreases s,
{
    if s.len() == 0 {
        0
    } else {
        10 * digits_val(s.drop_last()) + digit_val(s.last())
    }
}

/// A nonempty string of digits.
pub open spec fn all_digits(s: Seq<char>) -> bool {
    s.len() > 0 && forall|i: int| 0 <= i < s.len() ==> is_digit(#[trigger] s[i])
}

/// The shortest decimal rendering of a number.
pub open spec fn dec_digits(n: nat) -> Seq<char>
    decreases n,
{
    if n < 10 {
        seq![digit_char(n)]
    } else {
        dec_digits(n / 10).push(digit_char(n % 10))
    }
}

/// The decimal rendering of a signed number.
pub open spec fn dec_int(n: int) -> Seq<char> {
    if n < 0 {
        seq!['-'] + dec_digits((-n) as nat)
    } else {
        dec_digits(n as nat)
    }
}

/// The digit character of a value below ten carries that value.
pub proof fn lemma_digit_char_val(d: nat)
    requires
        d < 10,
    ensures
        is_digit(digit_char(d)),
        digit_val(digit_char(d)) == d,
{
}

/// A decimal rendering is a nonempty string of digits.
pub proof fn lemma_dec_digits_digits(n: nat)
    ensures
        all_digits(dec_digits(n)),
    decreases n,
{
    if n < 10 {
        lemma_digit_char_val(n);
    } else {
        lemma_dec_digits_digits(n / 10);
        lemma_digit_char_val(n % 10);
    }
}

/// Reading back a decimal rendering gives the number it came from.
pub proof fn lemma_digits_val_dec(n: nat)
    ensures
        digits_val(dec_digits(n)) == n,
    decreases n,
{
    if n < 10 {
        lemma_digit_char_val(n);
        assert(dec_digits(n).drop_last() =~= Seq::<char>::empty());
        assert(digits_val(Seq::<char>::empty()) == 0);
        assert(dec_digits(n).last() == digit_char(n));
    } else {
        lemma_digits_val_dec(n / 10);
        lemma_digit_char_val(n % 10);
        assert(dec_digits(n).drop_last() =~= dec_digits(n / 10));
        assert(dec_digits(n).last() == digit_char(n % 10));
        assert(digits_val(dec_digits(n)) == 10 * (n / 10) + n % 10);
        assert(n == 10 * (n / 10) + n % 10);
    }
}

/// Appends the digit character of a value below ten.
fn push_digit(out: &mut Vec<char>, d: u8)
    requires
        d < 10,
    ensures
        final(out)@ == old(out)@.push(digit_char(d as nat)),
{
    let c: char = if d == 0 {
        '0'
    } else if d == 1 {
        '1'
    } else if d == 2 {
        '2'
    } else if d == 3 {
        '3'
    } else if d == 4 {
        '4'
    } else if d == 5 {
        '5'
    } else if d == 6 {
        '6'
    } else if d == 7 {
        '7'
    } else if d == 8 {
        '8'
    } else {
        '9'
    };
    out.push(c);
}

/// Appends the decimal rendering of an unsigned number.
pub fn push_u64_chars(out: &mut Vec<char>, n: u64)
    ensures
        final(out)@ == old(out)@ + dec_digits(n as nat),
    decreases n,
{
    if n >= 10 {
        push_u64_chars(out, n / 10);
        push_digit(out, (n % 10) as u8);
        proof {
            assert(final(out)@ =~= old(out)@ + dec_digits(n as nat));
        }
    } else {
        push_digit(out, n as u8);
        proof {
            assert(final(out)@ =~= old(out)@ + dec_digits(n as nat));
        }
    }
}

/// Appends the decimal rendering of a signed number.
pub fn push_i64_chars(out: &mut Vec<char>, n: i64)
    ensures
        final(out)@ == old(out)@ + dec_int(n as int),
{
    if n >= 0 {
        push_u64_chars(out, n as u64);
    } else {
        out.push('-');
        let mag: u64 = (-(n as i128)) as u64;
        assert(mag as nat == (-(n as int)) as nat);
        push_u64_chars(out, mag);
        proof {
            assert(final(out)@ =~= old(out)@ + dec_int(n as int));
        }
    }
}

/// Reads a nonempty string of digits as an unsigned number; `None` when a
/// character is not a digit or the value does not fit.
pub fn parse_u64_chars(s: &[char]) -> (r: Option<u64>)
    ensures
        match r {
            Some(v) => all_digits(s@) && digits_val(s@) == v as nat,
            None => !(all_digits(s@) && digits_val(s@) <= u64::MAX as nat),
        },
{
    if s.len() == 0 {
        return None;
    }
    let mut acc: u64 = 0;
    let mut i: usize = 0;
    while i < s.len()
        invariant
            0 <= i <= s@.len(),
            s@.len() > 0,
            forall|j: int| 0 <= j < i ==> is_digit(#[trigger] s@[j]),
            acc as nat == digits_val(s@.subrange(0, i as int)),
        decreases s@.len() - i,
    {
        let c = s[i];
        if !digit_char_test(c) {
            return None;
        }
        let d: u64 = (c as u32 as u64) - 48;
        assert(d == digit_val(c) && d < 10);
        if acc > (u64::MAX - d) / 10 {
            proof {
                lemma_digits_val_cap(s@, i as int, acc as nat, d as nat);
            }
            return None;
        }
        proof {
            lemma_mul10_fits(acc as nat, d as nat);
            assert(s@.subrange(0, i + 1).drop_last() =~= s@.subrange(0, i as int));
            assert(s@.subrange(0, i + 1).last() == s@[i as int]);
        }
        acc = acc * 10 + d;
        i = i + 1;
    }
    proof {
        assert(s@.subrange(0, s@.len() as int) =~= s@);
    }
    Some(acc)
}

/// When the accumulator check fails, the whole string of digits does not fit
/// either.
proof fn lemma_digits_val_cap(s: Seq<char>, i: int, acc: nat, d: nat)
    requires
        0 <= i < s.len(),
        acc == digits_val(s.subrange(0, i)),
        d == digit_val(s[i]),
        d < 10,
        acc > (u64::MAX as nat - d) / 10,
    ensures
        digits_val(s) > u64::MAX as nat,
{
    assert(s.subrange(0, i + 1).drop_last() =~= s.subrange(0, i));
    assert(s.subrange(0, i + 1).last() == s[i]);
    assert(digits_val(s.subrange(0, i + 1)) == 10 * acc + d);
    assert(10 * acc + d > u64::MAX as nat) by {
        let m = u64::MAX as nat - d;
        assert(acc >= m / 10 + 1);
        assert(10 * (m / 10) + 10 > m) by (nonlinear_arith);
        assert(10 * acc >= 10 * (m / 10) + 10) by (nonlinear_arith)
            requires
                acc >= m / 10 + 1,
        ;
    }
    lemma_digits_val_grows(s, i + 1);
}

/// Ten times the accumulator plus a digit still fits when the check passes.
proof fn lemma_mul10_fits(acc: nat, d: nat)
    requires
        d < 10,
        acc <= (u64::MAX as nat - d) / 10,
    ensures
        10 * acc + d <= u64::MAX as nat,
{
    let m = u64::MAX as nat - d;
    assert(10 * (m / 10) <= m) by (nonlinear_arith);
    assert(10 * acc <= 10 * (m / 10)) by (nonlinear_arith)
        requires
            acc <= m / 10,
    ;
}

/// A string of digits is worth at least any of its prefixes.
proof fn lemma_digits_val_grows(s: Seq<char>, j: int)
    requires
        0 <= j <= s.len(),
    ensures
        digits_val(s) >= digits_val(s.subrange(0, j)),
    decreases s.len() - j,
{
    if j < s.len() {
        assert(s.subrange(0, j + 1).drop_last() =~= s.subrange(0, j));
        assert(digits_val(s.subrange(0, j + 1)) >= digits_val(s.subrange(0, j)));
        lemma_digits_val_grows(s, j + 1);
    } else {
        assert(s.subrange(0, j) =~= s);
    }
}

/// One leading sign character to step over, if any.
pub open spec fn sign_skip(s: Seq<char>) -> int {
    if s.len() > 0 && (s[0] == '-' || s[0] == '+') {
        1
    } else {
        0
    }
}

/// An optionally signed, nonempty string of digits.
pub open spec fn is_int_text(s: Seq<char>) -> bool {
    all_digits(s.subrange(sign_skip(s), s.len() as int))
}

/// The number an optionally signed string of digits names.
pub open spec fn int_text_val(s: Seq<char>) -> int {
    if s.len() > 0 && s[0] == '-' {
        -(digits_val(s.subrange(1, s.len() as int)) as int)
    } else {
        digits_val(s.subrange(sign_skip(s), s.len() as int)) as int
    }
}

/// The decimal rendering of a signed number reads back as that number.
pub proof fn lemma_dec_int_text(n: int)
    ensures
        is_int_text(dec_int(n)),
        int_text_val(dec_int(n)) == n,
        dec_int(n).len() > 0,
        !is_ws_char(dec_int(n)[0]),
{
    if n < 0 {
        let s = dec_int(n);
        lemma_dec_digits_digits((-n) as nat);
        lemma_digits_val_dec((-n) as nat);
        assert(s[0] == '-');
        assert(s.subrange(1, s.len() as int) =~= dec_digits((-n) as nat));
    } else {
        let s = dec_int(n);
        lemma_dec_digits_digits(n as nat);
        lemma_digits_val_dec(n as nat);
        assert(is_digit(s[0]));
        assert(sign_skip(s) == 0);
        assert(s.subrange(0, s.len() as int) =~= s);
    }
}

/// A signed string of digits holds a digit right after its sign.
pub proof fn lemma_int_text_not_ws(s: Seq<char>)
    requires
        is_int_text(s),
    ensures
        s.len() > 0,
        exists|i: int| 0 <= i < s.len() && !is_ws_char(#[trigger] s[i]),
{
    let k = sign_skip(s);
    let d = s.subrange(k, s.len() as int);
    assert(is_digit(d[0]));
    assert(s[k] == d[0]);
    assert(!is_ws_char(s[k]));
}

/// Reads an optionally signed, nonempty string of digits as a signed number;
/// `None` when the shape is wrong or the value does not fit.
pub fn parse_i64_chars(s: &[char]) -> (r: Option<i64>)
    ensures
        match r {
            Some(v) => is_int_text(s@) && v as int == int_text_val(s@),
            None => !(is_int_text(s@) && i64::MIN as int <= int_text_val(s@) <= i64::MAX as int),
        },
{
    let n = s.len();
    let neg = n > 0 && s[0] == '-';
    let signed = n > 0 && (s[0] == '-' || s[0] == '+');
    let digits: &[char] = if signed {
        vstd::slice::slice_subrange(s, 1, n)
    } else {
        s
    };
    proof {
        assert(digits@ =~= s@.subrange(sign_skip(s@), s@.len() as int));
    }
    match parse_u64_chars(digits) {
        None => None,
        Some(mag) => {
            if !neg {
                if mag <= i64::MAX as u64 {
                    Some(mag as i64)
                } else {
                    None
                }
            } else {
                if mag <= 9223372036854775808u64 {
                    if mag == 0 {
                        Some(0)
                    } else {
                        Some((-((mag - 1) as i64)) - 1)
                    }
                } else {
                    None
                }
            }
        },
    }
}

/// The first position at or after `i` that does not hold a digit.
pub open spec fn digits_end(s: Seq<char>, i: int) -> int
    decreases s.len() - i,
{
    if 0 <= i && i < s.len() && is_digit(s[i]) {
        digits_end(s, i + 1)
    } else {
        i
    }
}

/// Executable scan matching [`digits_end`].
pub fn scan_digits(s: &[char], i: usize) -> (r: usize)
    requires
        i <= s@.len(),
    ensures
        r as int == digits_end(s@, i as int),
        i <= r <= s@.len(),
    decreases s@.len() - i,
{
    if i < s.len() && digit_char_test(s[i]) {
        scan_digits(s, i + 1)
    } else {
        i
    }
}

/// The decimal number shape the scenario schema stores in its real-valued
/// fields: optional sign, an integer and/or a fractional digit part, and an
/// optional exponent.
pub open spec fn is_number_text(s: Seq<char>) -> bool {
    let i0 = sign_skip(s);
    let i1 = digits_end(s, i0);
    let frac = i1 < s.len() && s[i1] == '.';
    let i2 = if frac {
        digits_end(s, i1 + 1)
    } else {
        i1
    };
    let has_mant = i1 > i0 || (frac && i2 > i1 + 1);
    has_mant && (i2 == s.len() || ((s[i2] == 'e' || s[i2] == 'E') && {
        let i3 = i2 + 1 + (if i2 + 1 < s.len() && (s[i2 + 1] == '+' || s[i2 + 1] == '-') {
            1int
        } else {
            0int
        });
        let i4 = digits_end(s, i3);
        i4 > i3 && i4 == s.len()
    }))
}

/// Executable check matching [`is_number_text`].
pub fn check_number(s: &[char]) -> (r: bool)
    ensures
        r == is_number_text(s@),
{
    let n = s.len();
    let i0: usize = if n > 0 && (s[0] == '-' || s[0] == '+') {
        1
    } else {
        0
    };
    let i1 = scan_digits(s, i0);
    let frac = i1 < n && s[i1] == '.';
    let i2: usize = if frac {
        scan_digits(s, i1 + 1)
    } else {
        i1
    };
    let has_mant = i1 > i0 || (frac && i2 > i1 + 1);
    if !has_mant {
        return false;
    }
    if i2 == n {
        return true;
    }
    let c = s[i2];
    if c != 'e' && c != 'E' {
        return false;
    }
    let i3: usize = if i2 + 1 < n && (s[i2 + 1] == '+' || s[i2 + 1] == '-') {
        i2 + 2
    } else {
        i2 + 1
    };
    if i3 > n {
        return false;
    }
    let i4 = scan_digits(s, i3);
    i4 > i3 && i4 == n
}

/// A number text holds a digit or a point, so it does not read as layout
/// whitespace.
pub proof fn lemma_number_text_not_ws(s: Seq<char>)
    requires
        is_number_text(s),
    ensures
        s.len() > 0,
        exists|i: int| 0 <= i < s.len() && !is_ws_char(#[trigger] s[i]),
{
    let i0 = sign_skip(s);
    let i1 = digits_end(s, i0);
    if i1 > i0 {
        assert(is_digit(s[i0]));
        assert(!is_ws_char(s[i0]));
    } else {
        assert(s[i1] == '.');
        assert(!is_ws_char(s[i1]));
    }
}

/// Character-by-character equality of two string slices.
pub fn str_eq(a: &str, b: &str) -> (r: bool)
    ensures
        r == (a@ == b@),
{
    let na = a.unicode_len();
    let nb = b.unicode_len();
    if na != nb {
        return false;
    }
    let mut i: usize = 0;
    while i < na
        invariant
            na == a@.len(),
            na == b@.len(),
            i <= na,
            forall|j: int| 0 <= j < i ==> a@[j] == b@[j],
        decreases na - i,
    {
        if a.get_char(i) != b.get_char(i) {
            return false;
        }
        i = i + 1;
    }
    proof {
        assert(a@ =~= b@);
    }
    true
}

/// Appends one character to a string.
///
/// Relies on `String::push`: it appends exactly the given character.
#[verifier::external_body]
pub fn push_char(s: &mut String, c: char)
    ensures
        final(s)@ == old(s)@.push(c),
{
    s.push(c)
}

/// Copies the characters of a string slice into a vector, one `char` at a
/// time, so that the rest of the crate can index text freely.
pub fn str_to_chars(s: &str) -> (r: Vec<char>)
    ensures
        r@ == s@,
{
    let n: usize = s.unicode_len();
    let mut r: Vec<char> = Vec::new();
    let mut i: usize = 0;
    while i < n
        invariant
            n == s@.len(),
            i <= n,
            r@ == s@.subrange(0, i as int),
        decreases n - i,
    {
        r.push(s.get_char(i));
        proof {
            assert(r@ =~= s@.subrange(0, i + 1 as int));
        }
        i = i + 1;
    }
    proof {
        assert(r@ =~= s@);
    }
    r
}

/// Appends the characters of a string slice to a character vector.
pub fn push_str_chars(out: &mut Vec<char>, s: &str)
    ensures
        final(out)@ == old(out)@ + s@,
{
    let n: usize = s.unicode_len();
    let mut i: usize = 0;
    while i < n
        invariant
            n == s@.len(),
            i <= n,
            out@ == old(out)@ + s@.subrange(0, i as int),
        decreases n - i,
    {
        out.push(s.get_char(i));
        proof {
            assert(out@ =~= old(out)@ + s@.subrange(0, i + 1 as int));
        }
        i = i + 1;
    }
    proof {
        assert(out@ =~= old(out)@ + s@);
    }
}

/// Builds a string out of a character slice; inverse of [`str_to_chars`].
pub fn chars_to_string(v: &[char]) -> (r: String)
    ensures
        r@ == v@,
{
    let mut r = String::new();
    let mut i: usize = 0;
    while i < v.len()
        invariant
            i <= v@.len(),
            r@ == v@.subrange(0, i as int),
        decreases v@.len() - i,
    {
        push_char(&mut r, v[i]);
        proof {
            assert(r@ =~= v@.subrange(0, i + 1 as int));
        }
        i = i + 1;
    }
    proof {
        assert(r@ =~= v@);
    }
    r
}

} // verus!

//! Byte-level text: hexadecimal and decimal numbers, separators, literals.
//!
//! The profiling wire protocol is ASCII framed, so everything here works on
//! bytes. A text literal stands for the bytes of its UTF-8 encoding.

use vstd::prelude::*;
use vstd::slice::*;
use vstd::string::*;
use vstd::utf8::*;

verus! {

/// Whether `b` is an ASCII hexadecimal digit, in either case.
pub open spec fn is_hex_digit(b: u8) -> bool {
    (0x30 <= b <= 0x39) || (0x41 <= b <= 0x46) || (0x61 <= b <= 0x66)
}

/// The value of the hexadecimal digit `b`.
pub open spec fn hex_digit_value(b: u8) -> nat
    recommends
        is_hex_digit(b),
{
    if 0x30 <= b <= 0x39 {
        (b - 0x30) as nat
    } else if 0x41 <= b <= 0x46 {
        (b - 0x41 + 10) as nat
    } else {
        (b - 0x61 + 10) as nat
    }
}

/// Whether `s` is a non-empty run of hexadecimal digits.
pub open spec fn is_hex_number(s: Seq<u8>) -> bool {
    s.len() > 0 && forall|i: int| 0 <= i < s.len() ==> is_hex_digit(#[trigger] s[i])
}

/// The number that the digit string `s` writes in base 16, most significant
/// digit first.
pub open spec fn hex_value(s: Seq<u8>) -> nat
    decreases s.len(),
{
    if s.len() == 0 {
        0
    } else {
        hex_value(s.drop_last()) * 16 + hex_digit_value(s.last())
    }
}

/// What a hexadecimal field denotes: its value when it is a digit string
/// whose value fits in 64 bits.
pub open spec fn hex_u64(s: Seq<u8>) -> Option<u64> {
    if is_hex_number(s) && hex_value(s) <= u64::MAX {
        Some(hex_value(s) as u64)
    } else {
        None
    }
}

/// A digit string is worth at least as much as any of its prefixes.
pub proof fn lemma_hex_value_prefix(s: Seq<u8>, k: int)
    requires
        0 <= k <= s.len(),
    ensures
        hex_value(s.take(k)) <= hex_value(s),
    decreases s.len(),
{
    if k == s.len() {
        assert(s.take(k) =~= s);
    } else {
        lemma_hex_value_prefix(s.drop_last(), k);
        assert(s.drop_last().take(k) =~= s.take(k));
    }
}

/// Reads a hexadecimal number: one or more digits of either case, no sign,
/// no prefix. Leading zeros are allowed; a value beyond 64 bits is refused.
pub fn parse_hex_u64(s: &[u8]) -> (r: Option<u64>)
    ensures
        r == hex_u64(s@),
{
    if s.len() == 0 {
        return None;
    }
    let mut value: u64 = 0;
    let mut i: usize = 0;
    while i < s.len()
        invariant
            i <= s.len(),
            forall|j: int| 0 <= j < i ==> is_hex_digit(#[trigger] s@[j]),
            value == hex_value(s@.take(i as int)),
        decreases s.len() - i,
    {
        let b: u8 = s[i];
        let digit: u64 = if 0x30 <= b && b <= 0x39 {
            (b - 0x30) as u64
        } else if 0x41 <= b && b <= 0x46 {
            (b - 0x41 + 10) as u64
        } else if 0x61 <= b && b <= 0x66 {
            (b - 0x61 + 10) as u64
        } else {
            return None;
        };
        proof {
            assert(s@.take(i + 1).drop_last() =~= s@.take(i as int));
            assert(s@.take(i + 1).last() == b);
            lemma_hex_value_prefix(s@, i + 1);
        }
        if value > (u64::MAX - digit) / 16 {
            return None;
        }
        value = value * 16 + digit;
        i += 1;
    }
    assert(s@.take(i as int) =~= s@);
    Some(value)
}

/// The byte that writes the digit `d` in lower-case hexadecimal.
pub open spec fn hex_digit_byte(d: nat) -> u8
    recommends
        d < 16,
{
    if d < 10 {
        (0x30 + d) as u8
    } else {
        (0x61 + d - 10) as u8
    }
}

/// The lower-case hexadecimal digits of `n`, without leading zeros; zero is
/// the single digit `0`.
pub open spec fn hex_digits(n: nat) -> Seq<u8>
    decreases n,
{
    if n < 16 {
        seq![hex_digit_byte(n)]
    } else {
        hex_digits(n / 16).push(hex_digit_byte(n % 16))
    }
}

/// Reading back the digits written for `n` gives `n`.
pub proof fn lemma_hex_round_trip(n: nat)
    ensures
        is_hex_number(hex_digits(n)),
        hex_value(hex_digits(n)) == n,
    decreases n,
{
    if n < 16 {
        let s = hex_digits(n);
        assert(s.drop_last() =~= Seq::<u8>::empty());
        assert(hex_value(s.drop_last()) == 0);
    } else {
        lemma_hex_round_trip(n / 16);
        let s = hex_digits(n);
        assert(s.drop_last() =~= hex_digits(n / 16));
        assert(s.last() == hex_digit_byte(n % 16));
    }
}

/// Appends the lower-case hexadecimal digits of `n` to `out`.
pub fn push_hex(out: &mut Vec<u8>, n: u64)
    ensures
        final(out)@ == old(out)@ + hex_digits(n as nat),
{
    let mut digits: Vec<u8> = Vec::new();
    let mut rest: u64 = n;
    // Least significant digit first, then appended in reverse.
    loop
        invariant_except_break
            hex_digits(n as nat) =~= hex_digits(rest as nat) + digits@.reverse(),
        ensures
            hex_digits(n as nat) =~= digits@.reverse(),
        decreases rest,
    {
        let d: u8 = (rest % 16) as u8;
        let b: u8 = if d < 10 {
            0x30 + d
        } else {
            0x61 + (d - 10)
        };
        assert(b == hex_digit_byte((rest % 16) as nat));
        proof {
            assert(digits@.push(b).reverse() =~= seq![b] + digits@.reverse());
        }
        digits.push(b);
        if rest < 16 {
            break ;
        }
        rest = rest / 16;
    }
    let mut i: usize = digits.len();
    while i > 0
        invariant
            i <= digits.len(),
            out@ == old(out)@ + digits@.reverse().take(digits.len() - i),
        decreases i,
    {
        i -= 1;
        out.push(digits[i]);
        proof {
            let r = digits@.reverse();
            let k = digits.len() - i - 1;
            assert(r[k] == digits@[i as int]);
            assert(r.take(k + 1) =~= r.take(k).push(r[k]));
        }
    }
    assert(digits@.reverse().take(digits.len() as int) =~= digits@.reverse());
}

/// What is left of `s` once every leading `0x` is taken off.
pub open spec fn strip_hex_prefix(s: Seq<u8>) -> Seq<u8>
    decreases s.len(),
{
    if s.len() >= 2 && s[0] == 0x30 && s[1] == 0x78 {
        strip_hex_prefix(s.subrange(2, s.len() as int))
    } else {
        s
    }
}

/// What an address field denotes: a hexadecimal number behind any number of
/// `0x` prefixes.
pub open spec fn address_value(s: Seq<u8>) -> Option<u64> {
    hex_u64(strip_hex_prefix(s))
}

/// Reads an address as it arrives from a profiler: hexadecimal digits,
/// optionally behind `0x`. A repeated prefix is taken off as well, which is
/// what trimming a leading pattern does.
pub fn parse_address(s: &[u8]) -> (r: Option<u64>)
    ensures
        r == address_value(s@),
{
    let mut start: usize = 0;
    assert(s@.subrange(0, s.len() as int) =~= s@);
    while s.len() - start >= 2 && s[start] == 0x30 && s[start + 1] == 0x78
        invariant
            start <= s.len(),
            strip_hex_prefix(s@) == strip_hex_prefix(s@.subrange(start as int, s.len() as int)),
        decreases s.len() - start,
    {
        proof {
            let cur = s@.subrange(start as int, s.len() as int);
            assert(cur.subrange(2, cur.len() as int) =~= s@.subrange(start + 2, s.len() as int));
        }
        start += 2;
    }
    parse_hex_u64(slice_subrange(s, start, s.len()))
}

/// Whether `b` is an ASCII decimal digit.
pub open spec fn is_decimal_digit(b: u8) -> bool {
    0x30 <= b <= 0x39
}

/// Whether `s` is a non-empty run of decimal digits.
pub open spec fn is_decimal_number(s: Seq<u8>) -> bool {
    s.len() > 0 && forall|i: int| 0 <= i < s.len() ==> is_decimal_digit(#[trigger] s[i])
}

/// The number that the digit string `s` writes in base 10.
pub open spec fn decimal_value(s: Seq<u8>) -> nat
    decreases s.len(),
{
    if s.len() == 0 {
        0
    } else {
        decimal_value(s.drop_last()) * 10 + (s.last() - 0x30) as nat
    }
}

/// The digits of a decimal field: the field itself, or what follows one
/// leading plus sign.
pub open spec fn unsigned_digits(s: Seq<u8>) -> Seq<u8> {
    if s.len() > 0 && s[0] == 0x2b {
        s.subrange(1, s.len() as int)
    } else {
        s
    }
}

/// What a decimal field denotes: the value of its digits, an optional plus
/// sign in front, when that value fits in a `usize`.
pub open spec fn decimal_usize(s: Seq<u8>) -> Option<usize> {
    let digits = unsigned_digits(s);
    if is_decimal_number(digits) && decimal_value(digits) <= usize::MAX {
        Some(decimal_value(digits) as usize)
    } else {
        None
    }
}

/// A digit string is worth at least as much as any of its prefixes.
pub proof fn lemma_decimal_value_prefix(s: Seq<u8>, k: int)
    requires
        0 <= k <= s.len(),
        forall|i: int| 0 <= i < s.len() ==> is_decimal_digit(#[trigger] s[i]),
    ensures
        decimal_value(s.take(k)) <= decimal_value(s),
    decreases s.len(),
{
    if k == s.len() {
        assert(s.take(k) =~= s);
    } else {
        lemma_decimal_value_prefix(s.drop_last(), k);
        assert(s.drop_last().take(k) =~= s.take(k));
    }
}

/// Reads an unsigned decimal number the way the standard integer parser
/// does: digits only, one plus sign allowed in front, no blanks, and no
/// value beyond the range of `usize`.
pub fn parse_decimal_usize(s: &[u8]) -> (r: Option<usize>)
    ensures
        r == decimal_usize(s@),
{
    let start: usize = if s.len() > 0 && s[0] == 0x2b {
        1
    } else {
        0
    };
    let digits = slice_subrange(s, start, s.len());
    assert(digits@ =~= unsigned_digits(s@));
    if digits.len() == 0 {
        return None;
    }
    let mut value: usize = 0;
    let mut i: usize = 0;
    while i < digits.len()
        invariant
            i <= digits.len(),
            digits@ == unsigned_digits(s@),
            forall|j: int| 0 <= j < i ==> is_decimal_digit(#[trigger] digits@[j]),
            value == decimal_value(digits@.take(i as int)),
        decreases digits.len() - i,
    {
        let b: u8 = digits[i];
        if !(0x30 <= b && b <= 0x39) {
            return None;
        }
        let digit: usize = (b - 0x30) as usize;
        proof {
            assert(digits@.take(i + 1).drop_last() =~= digits@.take(i as int));
            assert(digits@.take(i + 1).last() == b);
        }
        if value > (usize::MAX - digit) / 10 {
            proof {
                // Every later byte is a digit or the field is no number at
                // all; either way nothing is owed.
                if is_decimal_number(digits@) {
                    lemma_decimal_value_prefix(digits@, i + 1);
                }
            }
            return None;
        }
        value = value * 10 + digit;
        i += 1;
    }
    assert(digits@.take(i as int) =~= digits@);
    Some(value)
}

/// The decimal digits of `n`, without leading zeros; zero is the single
/// digit `0`.
pub open spec fn decimal_digits(n: nat) -> Seq<u8>
    decreases n,
{
    if n < 10 {
        seq![(0x30 + n) as u8]
    } else {
        decimal_digits(n / 10).push((0x30 + n % 10) as u8)
    }
}

/// Reading back the digits written for `n` gives `n`.
pub proof fn lemma_decimal_round_trip(n: nat)
    ensures
        is_decimal_number(decimal_digits(n)),
        decimal_value(decimal_digits(n)) == n,
    decreases n,
{
    if n < 10 {
        let s = decimal_digits(n);
        assert(s.drop_last() =~= Seq::<u8>::empty());
        assert(decimal_value(s.drop_last()) == 0);
    } else {
        lemma_decimal_round_trip(n / 10);
        let s = decimal_digits(n);
        assert(s.drop_last() =~= decimal_digits(n / 10));
        assert(s.last() == (0x30 + n % 10) as u8);
    }
}

/// Appends the decimal digits of `n` to `out`.
pub fn push_decimal(out: &mut Vec<u8>, n: u64)
    ensures
        final(out)@ == old(out)@ + decimal_digits(n as nat),
{
    let mut digits: Vec<u8> = Vec::new();
    let mut rest: u64 = n;
    // Least significant digit first, then appended in reverse.
    loop
        invariant_except_break
            decimal_digits(n as nat) =~= decimal_digits(rest as nat) + digits@.reverse(),
        ensures
            decimal_digits(n as nat) =~= digits@.reverse(),
        decreases rest,
    {
        let b: u8 = 0x30 + (rest % 10) as u8;
        proof {
            assert(digits@.push(b).reverse() =~= seq![b] + digits@.reverse());
        }
        digits.push(b);
        if rest < 10 {
            break ;
        }
        rest = rest / 10;
    }
    let mut i: usize = digits.len();
    while i > 0
        invariant
            i <= digits.len(),
            out@ == old(out)@ + digits@.reverse().take(digits.len() - i),
        decreases i,
    {
        i -= 1;
        out.push(digits[i]);
        proof {
            let r = digits@.reverse();
            let k = digits.len() - i - 1;
            assert(r[k] == digits@[i as int]);
            assert(r.take(k + 1) =~= r.take(k).push(r[k]));
        }
    }
    assert(digits@.reverse().take(digits.len() as int) =~= digits@.reverse());
}

/// The decimal text of a signed number: a minus sign for a negative one,
/// then the digits of its magnitude.
pub open spec fn signed_decimal_digits(n: int) -> Seq<u8> {
    if n < 0 {
        seq![0x2du8] + decimal_digits((-n) as nat)
    } else {
        decimal_digits(n as nat)
    }
}

/// Appends the decimal text of `n` to `out`.
pub fn push_signed_decimal(out: &mut Vec<u8>, n: i32)
    ensures
        final(out)@ == old(out)@ + signed_decimal_digits(n as int),
{
    if n < 0 {
        out.push(0x2d);
        let magnitude: u64 = (0 - (n as i64)) as u64;
        push_decimal(out, magnitude);
        assert(out@ =~= old(out)@ + (seq![0x2du8] + decimal_digits((-n) as nat)));
    } else {
        push_decimal(out, n as u64);
    }
}

/// Appends the bytes of `text` to `out`.
pub fn push_text(out: &mut Vec<u8>, text: &str)
    ensures
        final(out)@ == old(out)@ + text.spec_bytes(),
{
    out.extend_from_slice(text.as_bytes());
}

/// Tells whether two byte strings hold the same bytes.
pub fn bytes_eq(a: &[u8], b: &[u8]) -> (r: bool)
    ensures
        r == (a@ == b@),
{
    if a.len() != b.len() {
        return false;
    }
    let mut i: usize = 0;
    while i < a.len()
        invariant
            a.len() == b.len(),
            i <= a.len(),
            forall|j: int| 0 <= j < i ==> a@[j] == b@[j],
        decreases a.len() - i,
    {
        if a[i] != b[i] {
            return false;
        }
        i += 1;
    }
    assert(a@ =~= b@);
    true
}

/// Tells whether `a` holds exactly the bytes of `text`.
pub fn is_text(a: &[u8], text: &str) -> (r: bool)
    ensures
        r == (a@ == text.spec_bytes()),
{
    bytes_eq(a, text.as_bytes())
}

/// The first position at or after `from` where `s` holds the byte `b`, or
/// the end of `s` when there is none.
pub open spec fn next_index_of(s: Seq<u8>, b: u8, from: int) -> int
    decreases s.len() - from,
{
    if from >= s.len() {
        s.len() as int
    } else if s[from] == b {
        from
    } else {
        next_index_of(s, b, from + 1)
    }
}

/// `next_index_of` lies between `from` and the end, stops on `b`, and passes
/// over nothing that is `b`.
pub proof fn lemma_next_index_of(s: Seq<u8>, b: u8, from: int)
    requires
        0 <= from <= s.len(),
    ensures
        from <= next_index_of(s, b, from) <= s.len(),
        next_index_of(s, b, from) < s.len() ==> s[next_index_of(s, b, from)] == b,
        forall|j: int| from <= j < next_index_of(s, b, from) ==> s[j] != b,
    decreases s.len() - from,
{
    if from < s.len() && s[from] != b {
        lemma_next_index_of(s, b, from + 1);
    }
}

/// Finds the first `b` in `s` at or after `from`; the end of `s` if there
/// is none.
pub fn find_byte(s: &[u8], b: u8, from: usize) -> (r: usize)
    ensures
        r == next_index_of(s@, b, from as int),
        r <= s.len(),
        from <= s.len() ==> from <= r,
{
    if from >= s.len() {
        return s.len();
    }
    let mut i: usize = from;
    while i < s.len() && s[i] != b
        invariant
            from <= i <= s.len(),
            next_index_of(s@, b, from as int) == next_index_of(s@, b, i as int),
        decreases s.len() - i,
    {
        i += 1;
    }
    i
}

/// The pieces of `s` between occurrences of `sep`, from position `from` on.
/// There is always at least one piece; two separators in a row enclose an
/// empty one.
pub open spec fn split_from(s: Seq<u8>, sep: u8, from: int) -> Seq<Seq<u8>>
    decreases s.len() - from,
{
    let end = next_index_of(s, sep, from);
    if from <= end < s.len() {
        seq![s.subrange(from, end)] + split_from(s, sep, end + 1)
    } else {
        seq![s.subrange(from, s.len() as int)]
    }
}

/// The pieces of `s` between occurrences of `sep`.
pub open spec fn split(s: Seq<u8>, sep: u8) -> Seq<Seq<u8>> {
    split_from(s, sep, 0)
}

/// How a text falls into pieces: a piece ends at each separator, and what
/// follows the last separator is a piece too, even when it is empty.
pub proof fn lemma_split_from(s: Seq<u8>, sep: u8, from: int)
    requires
        0 <= from <= s.len(),
    ensures
        ({
            let end = next_index_of(s, sep, from);
            &&& from <= end <= s.len()
            &&& end < s.len() ==> split_from(s, sep, from) == seq![s.subrange(from, end)]
                + split_from(s, sep, end + 1)
            &&& end == s.len() ==> split_from(s, sep, from) == seq![s.subrange(from, end)]
        }),
{
    lemma_next_index_of(s, sep, from);
}

/// The text that `String::from_utf8_lossy` makes of `bytes`.
pub uninterp spec fn lossy_text(bytes: Seq<u8>) -> Seq<char>;

/// Calls `String::from_utf8_lossy`, which decodes UTF-8 and puts the
/// replacement character where the bytes are no UTF-8. What is claimed is
/// only that the text is a function of the bytes; which text it is, is not
/// stated here and not proved.
#[verifier::external_body]
fn to_lossy_text(bytes: &[u8]) -> (text: String)
    ensures
        text@ == lossy_text(bytes@),
{
    String::from_utf8_lossy(bytes).into_owned()
}

/// The text that the `Debug` form of a string slice prints for `text`: the
/// text between double quotes, with escapes where `Debug` puts them.
pub uninterp spec fn debug_text(text: Seq<char>) -> Seq<char>;

/// Prints `text` with the `Debug` form of a string slice. What is claimed
/// is only that the printed text is a function of the text; which text it
/// is, is not stated here and not proved.
#[verifier::external_body]
fn to_debug_text(text: &str) -> (printed: String)
    ensures
        printed@ == debug_text(text@),
{
    format!("{:?}", text)
}

/// The bytes of `value` as a message shows them: quoted, with escapes.
pub open spec fn quoted(value: Seq<u8>) -> Seq<u8> {
    encode_utf8(debug_text(lossy_text(value)))
}

/// How a message shows a value that may be missing, given the quoted form
/// of the value where there is one.
pub open spec fn shown_option(quoted: Option<Seq<u8>>) -> Seq<u8> {
    match quoted {
        Some(q) => "Some(".spec_bytes() + q + ")".spec_bytes(),
        None => "None".spec_bytes(),
    }
}

/// How a message shows a value that may be missing.
pub open spec fn quoted_option(value: Option<Seq<u8>>) -> Seq<u8> {
    shown_option(
        match value {
            Some(v) => Some(quoted(v)),
            None => None,
        },
    )
}

/// The view of a byte string that may be missing.
pub open spec fn option_view(value: Option<Vec<u8>>) -> Option<Seq<u8>> {
    match value {
        Some(v) => Some(v@),
        None => None,
    }
}

/// Quotes `value` as a message shows it.
pub fn quote(value: &[u8]) -> (r: Vec<u8>)
    ensures
        r@ == quoted(value@),
{
    let text = to_lossy_text(value);
    let printed = to_debug_text(text.as_str());
    let mut out: Vec<u8> = Vec::new();
    push_text(&mut out, printed.as_str());
    assert(out@ =~= quoted(value@));
    out
}

/// Shows a value that may be missing, given the quoted form of the value
/// where there is one.
pub fn show_option(quoted: &Option<Vec<u8>>) -> (r: Vec<u8>)
    ensures
        r@ == shown_option(option_view(*quoted)),
{
    let mut out: Vec<u8> = Vec::new();
    match quoted {
        Some(q) => {
            push_text(&mut out, "Some(");
            out.extend_from_slice(q.as_slice());
            push_text(&mut out, ")");
            assert(out@ =~= "Some(".spec_bytes() + q@ + ")".spec_bytes());
        },
        None => {
            push_text(&mut out, "None");
            assert(out@ =~= "None".spec_bytes());
        },
    }
    out
}

/// Shows a value that may be missing as a message shows it.
pub fn quote_option(value: &Option<Vec<u8>>) -> (r: Vec<u8>)
    ensures
        r@ == quoted_option(option_view(*value)),
{
    let quoted: Option<Vec<u8>> = match value {
        Some(v) => Some(quote(v.as_slice())),
        None => None,
    };
    show_option(&quoted)
}

} // verus!

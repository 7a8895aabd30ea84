//! Helpers for moving between Rust strings and their character and byte sequences.

use vstd::prelude::*;
use vstd::std_specs::iter::IteratorSpec;
use vstd::string::StringSliceAdditionalSpecFns;
use vstd::utf8::valid_utf8;

verus! {

/// The characters of `s`, in order.
pub fn chars_of(s: &str) -> (r: Vec<char>)
    ensures
        r@ == s@,
{
    let mut out: Vec<char> = Vec::new();
    for c in iter: s.chars()
        invariant
            out@ == iter.seq().take(iter.index() as int),
    {
        out.push(c);
    }
    out
}

/// Append one character to a `String`; calls `String::push`.
#[verifier::external_body]
pub(crate) fn string_push(s: &mut String, c: char)
    ensures
        final(s)@ == old(s)@.push(c),
{
    s.push(c);
}

/// Build a `String` holding exactly the characters of `chars`.
pub fn string_from_chars(chars: &[char]) -> (r: String)
    ensures
        r@ == chars@,
{
    let mut out = String::new();
    let mut i: usize = 0;
    while i < chars.len()
        invariant
            i <= chars@.len(),
            out@ == chars@.take(i as int),
        decreases chars@.len() - i,
    {
        string_push(&mut out, chars[i]);
        proof {
            assert(chars@.take(i + 1) =~= chars@.take(i as int).push(chars@[i as int]));
        }
        i = i + 1;
    }
    proof {
        assert(chars@.take(i as int) =~= chars@);
    }
    out
}

/// Return `true` if both character sequences are equal.
pub fn chars_eq(a: &[char], b: &[char]) -> (r: bool)
    ensures
        r == (a@ == b@),
{
    if a.len() != b.len() {
        return false;
    }
    let mut i: usize = 0;
    while i < a.len()
        invariant
            i <= a@.len(),
            a@.len() == b@.len(),
            forall|j: int| 0 <= j < i ==> a@[j] == b@[j],
        decreases a@.len() - i,
    {
        if a[i] != b[i] {
            return false;
        }
        i = i + 1;
    }
    proof {
        assert(a@ =~= b@);
    }
    true
}

/// Return `true` if both strings hold the same characters.
pub fn str_eq(a: &str, b: &str) -> (r: bool)
    ensures
        r == (a@ == b@),
{
    let ac = chars_of(a);
    let bc = chars_of(b);
    chars_eq(ac.as_slice(), bc.as_slice())
}

/// Convert bytes to a string slice; calls `std::str::from_utf8`, which succeeds exactly on valid UTF-8.
#[verifier::external_body]
pub(crate) fn str_from_utf8(b: &[u8]) -> (r: Option<&str>)
    ensures
        r is Some <==> valid_utf8(b@),
        r matches Some(s) ==> s.spec_bytes() == b@,
{
    std::str::from_utf8(b).ok()
}

/// The uppercase hexadecimal digit of `d`.
pub open spec fn spec_hex_digit(d: nat) -> char {
    if d < 10 {
        (0x30 + d) as char
    } else {
        (0x37 + d) as char
    }
}

/// The uppercase hexadecimal digits of `n`, without leading zeros (but `0` for zero).
pub open spec fn spec_hex_digits(n: nat) -> Seq<char>
    decreases n,
{
    if n < 16 {
        seq![spec_hex_digit(n)]
    } else {
        spec_hex_digits(n / 16) + seq![spec_hex_digit(n % 16)]
    }
}

/// `n` in uppercase hexadecimal, padded with zeros to at least `width` digits.
pub open spec fn spec_hex_padded(n: nat, width: nat) -> Seq<char> {
    let digits = spec_hex_digits(n);
    if digits.len() < width {
        Seq::new((width - digits.len()) as nat, |i: int| '0') + digits
    } else {
        digits
    }
}

/// The decimal digits of `n`, without leading zeros (but `0` for zero).
pub open spec fn spec_decimal_digits(n: nat) -> Seq<char>
    decreases n,
{
    if n < 10 {
        seq![(0x30 + n) as char]
    } else {
        spec_decimal_digits(n / 10) + seq![(0x30 + n % 10) as char]
    }
}

/// Reverse a sequence of characters.
fn reversed(cs: &Vec<char>) -> (r: Vec<char>)
    ensures
        r@ == cs@.reverse(),
{
    let mut out: Vec<char> = Vec::new();
    let mut i = cs.len();
    while i > 0
        invariant
            i <= cs@.len(),
            out@ == cs@.subrange(i as int, cs@.len() as int).reverse(),
        decreases i,
    {
        i = i - 1;
        out.push(cs[i]);
        proof {
            assert(cs@.subrange(i as int, cs@.len() as int).reverse() =~= cs@.subrange(i + 1, cs@.len() as int).reverse().push(
                cs@[i as int],
            ));
        }
    }
    proof {
        assert(cs@.subrange(0, cs@.len() as int) =~= cs@);
    }
    out
}

/// Format `n` in uppercase hexadecimal, padded with zeros to at least `width` digits, like `{:0width$X}`.
pub fn format_hex(n: usize, width: usize) -> (r: String)
    ensures
        r@ == spec_hex_padded(n as nat, width as nat),
{
    let mut rev: Vec<char> = Vec::new();
    let mut v = n;
    while v >= 16
        invariant
            spec_hex_digits(n as nat) == spec_hex_digits(v as nat) + rev@.reverse(),
        decreases v,
    {
        let d = v % 16;
        let c = if d < 10 { (0x30 + d) as u8 as char } else { (0x37 + d) as u8 as char };
        let ghost old_rev = rev@;
        rev.push(c);
        proof {
            assert(c == spec_hex_digit(d as nat));
            assert(rev@.reverse() =~= seq![c] + old_rev.reverse());
            assert(spec_hex_digits(v as nat) == spec_hex_digits((v / 16) as nat) + seq![c]);
            assert(spec_hex_digits((v / 16) as nat) + seq![c] + old_rev.reverse() =~= spec_hex_digits((v / 16) as nat)
                + rev@.reverse());
        }
        v = v / 16;
    }
    let c = if v < 10 { (0x30 + v) as u8 as char } else { (0x37 + v) as u8 as char };
    let ghost old_rev = rev@;
    rev.push(c);
    proof {
        assert(c == spec_hex_digit(v as nat));
        assert(rev@.reverse() =~= seq![c] + old_rev.reverse());
    }
    let digits = reversed(&rev);
    let mut out: Vec<char> = Vec::new();
    let mut k = digits.len();
    while k < width
        invariant
            digits.len() <= k <= width || (k == digits.len() && width < k),
            out@ == Seq::new((k - digits@.len()) as nat, |i: int| '0'),
        decreases width - k,
    {
        out.push('0');
        proof {
            assert(out@ =~= Seq::new((k + 1 - digits@.len()) as nat, |i: int| '0'));
        }
        k = k + 1;
    }
    let mut j: usize = 0;
    let ghost pad = out@;
    while j < digits.len()
        invariant
            j <= digits@.len(),
            out@ == pad + digits@.take(j as int),
        decreases digits@.len() - j,
    {
        out.push(digits[j]);
        proof {
            assert(digits@.take(j + 1) =~= digits@.take(j as int).push(digits@[j as int]));
        }
        j = j + 1;
    }
    proof {
        assert(digits@.take(j as int) =~= digits@);
        assert(digits@ == spec_hex_digits(n as nat));
        if digits@.len() >= width {
            assert(pad =~= Seq::<char>::empty());
            assert(out@ =~= digits@);
        }
    }
    string_from_chars(out.as_slice())
}

/// Format `n` in decimal, like `{}`.
pub fn format_decimal(n: usize) -> (r: String)
    ensures
        r@ == spec_decimal_digits(n as nat),
{
    let mut rev: Vec<char> = Vec::new();
    let mut v = n;
    while v >= 10
        invariant
            spec_decimal_digits(n as nat) == spec_decimal_digits(v as nat) + rev@.reverse(),
        decreases v,
    {
        let d = v % 10;
        let c = (0x30 + d) as u8 as char;
        let ghost old_rev = rev@;
        rev.push(c);
        proof {
            assert(rev@.reverse() =~= seq![c] + old_rev.reverse());
            assert(spec_decimal_digits(v as nat) == spec_decimal_digits((v / 10) as nat) + seq![c]);
            assert(spec_decimal_digits((v / 10) as nat) + seq![c] + old_rev.reverse() =~= spec_decimal_digits(
                (v / 10) as nat,
            ) + rev@.reverse());
        }
        v = v / 10;
    }
    let c = (0x30 + v) as u8 as char;
    let ghost old_rev = rev@;
    rev.push(c);
    proof {
        assert(rev@.reverse() =~= seq![c] + old_rev.reverse());
    }
    let digits = reversed(&rev);
    string_from_chars(digits.as_slice())
}

} // verus!

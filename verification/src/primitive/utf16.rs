//! Little endian, null terminated UTF-16 strings, and the rules that decide whether one is valid.

use vstd::prelude::*;
use std::sync::Arc;
use crate::error::{Error, RinghopperResult};
use crate::parse::TagData;
use crate::map::{CacheMap, DomainType, MapReadError, MapView, spec_map_view};
use crate::primitive::data::{spec_read_data_bytes, spec_read_data_from_map, spec_write_data_bytes, read_data_bytes, read_data_from_map, write_data_bytes};
use crate::text::{chars_of, string_from_chars};

verus! {

/// A code unit from two little endian bytes.
pub open spec fn spec_unit_le(lo: u8, hi: u8) -> u16 {
    (lo as int + hi as int * 256) as u16
}

/// The code units of `bytes`, two little endian bytes each.
pub open spec fn spec_units_le(bytes: Seq<u8>) -> Seq<u16> {
    Seq::new(bytes.len() / 2, |i: int| spec_unit_le(bytes[2 * i], bytes[2 * i + 1]))
}

/// The little endian bytes of code units.
pub open spec fn spec_units_to_bytes(units: Seq<u16>) -> Seq<u8> {
    Seq::new(units.len() * 2, |i: int| if i % 2 == 0 {
        (units[i / 2] % 256) as u8
    } else {
        (units[i / 2] / 256) as u8
    })
}

/// `true` for a high surrogate code unit.
pub open spec fn spec_is_high_surrogate(u: u16) -> bool {
    0xD800 <= u <= 0xDBFF
}

/// `true` for a low surrogate code unit.
pub open spec fn spec_is_low_surrogate(u: u16) -> bool {
    0xDC00 <= u <= 0xDFFF
}

/// The code point of a surrogate pair.
pub open spec fn spec_pair_code_point(high: u16, low: u16) -> int {
    0x10000 + (high - 0xD800) * 0x400 + (low - 0xDC00)
}

/// Lossy UTF-16 decoding: the characters, with U+FFFD for each unit that is not part of a valid encoding, and
/// whether every unit was.
pub open spec fn spec_decode_utf16(units: Seq<u16>) -> (Seq<char>, bool)
    decreases units.len(),
{
    if units.len() == 0 {
        (Seq::empty(), true)
    } else if !(0xD800 <= units[0] <= 0xDFFF) {
        let rest = spec_decode_utf16(units.drop_first());
        (seq![units[0] as char] + rest.0, rest.1)
    } else if spec_is_high_surrogate(units[0]) && units.len() >= 2 && spec_is_low_surrogate(units[1]) {
        let rest = spec_decode_utf16(units.subrange(2, units.len() as int));
        (seq![spec_pair_code_point(units[0], units[1]) as char] + rest.0, rest.1)
    } else {
        let rest = spec_decode_utf16(units.drop_first());
        (seq!['\u{FFFD}'] + rest.0, false)
    }
}

/// The code units before the first zero, and whether there is a zero.
pub open spec fn spec_take_nonzero(units: Seq<u16>) -> (Seq<u16>, bool)
    decreases units.len(),
{
    if units.len() == 0 {
        (Seq::empty(), false)
    } else if units[0] == 0 {
        (Seq::empty(), true)
    } else {
        let rest = spec_take_nonzero(units.drop_first());
        (seq![units[0]] + rest.0, rest.1)
    }
}

/// `true` for the ASCII control characters, U+0000 to U+001F and U+007F.
pub open spec fn spec_is_ascii_control(c: char) -> bool {
    (c as int) < 0x20 || (c as int) == 0x7F
}

/// One step of the line break and control character filter. The state holds the characters kept, the last
/// character kept, and whether anything had to be changed; `after` is the character that follows `n`.
pub open spec fn spec_filter_step(state: (Seq<char>, Option<char>, bool), n: char, after: Option<char>) -> (
    Seq<char>,
    Option<char>,
    bool,
) {
    let (out, last, changed) = state;
    if n == '\n' {
        if last != Some('\r') {
            (out.push('\r').push('\n'), Some('\n'), true)
        } else {
            (out.push('\n'), Some('\n'), changed)
        }
    } else if n == '\r' {
        if after != Some('\n') {
            (out, last, true)
        } else {
            (out.push('\r'), Some('\r'), changed)
        }
    } else if n != '\t' && spec_is_ascii_control(n) {
        (out, last, true)
    } else {
        (out.push(n), Some(n), changed)
    }
}

/// The filter's state after the first `k` characters of `cs`.
pub open spec fn spec_filter_upto(cs: Seq<char>, k: nat) -> (Seq<char>, Option<char>, bool)
    decreases k,
{
    if k == 0 || k > cs.len() {
        (Seq::empty(), None, false)
    } else {
        let after = if k < cs.len() {
            Some(cs[k as int])
        } else {
            None
        };
        spec_filter_step(spec_filter_upto(cs, (k - 1) as nat), cs[k - 1], after)
    }
}

/// Filtering line breaks and control characters: every line feed gets a carriage return before it, a carriage
/// return without a line feed after it is dropped, and so is any other control character but the tab. The second
/// value is `true` if anything had to be changed.
pub open spec fn spec_filter(cs: Seq<char>) -> (Seq<char>, bool) {
    let f = spec_filter_upto(cs, cs.len());
    (f.0, f.2)
}

/// Reading UTF-16 string data: the string, and whether the data is corrupt.
///
/// Data of odd or zero length is corrupt and reads as the empty string. Otherwise the code units before the null
/// terminator are decoded, stopping early at a zero, and then filtered. The data is corrupt if it lacks the null
/// terminator, holds an early zero, holds invalid UTF-16, or needed filtering.
pub open spec fn spec_parse_utf16(data: Seq<u8>) -> (Seq<char>, bool) {
    if data.len() % 2 != 0 || data.len() == 0 {
        (Seq::empty(), true)
    } else {
        let terminated = data[data.len() - 2] == 0 && data[data.len() - 1] == 0;
        let range = if terminated {
            data.take(data.len() - 2)
        } else {
            data
        };
        let units = spec_take_nonzero(spec_units_le(range));
        let decoded = spec_decode_utf16(units.0);
        let filtered = spec_filter(decoded.0);
        (filtered.0, !terminated || units.1 || !decoded.1 || filtered.1)
    }
}

/// The UTF-16 code units of one character.
pub open spec fn spec_encode_char(c: char) -> Seq<u16> {
    let v = c as int;
    if v < 0x10000 {
        seq![v as u16]
    } else {
        seq![(0xD800 + (v - 0x10000) / 0x400) as u16, (0xDC00 + (v - 0x10000) % 0x400) as u16]
    }
}

/// The UTF-16 code units of a string.
pub open spec fn spec_encode_utf16(cs: Seq<char>) -> Seq<u16>
    decreases cs.len(),
{
    if cs.len() == 0 {
        Seq::empty()
    } else {
        spec_encode_char(cs[0]) + spec_encode_utf16(cs.drop_first())
    }
}

/// The UTF-16 string data of a string: its code units as little endian bytes, then the null terminator.
pub open spec fn spec_utf16_data(cs: Seq<char>) -> Seq<u8> {
    spec_units_to_bytes(spec_encode_utf16(cs)) + seq![0u8, 0u8]
}

/// `true` if the character at `p` may stand in valid string data: it is no control character but a tab, carriage
/// return or line feed; a line feed follows a carriage return; a carriage return is followed by a line feed, if
/// anything follows it.
pub open spec fn spec_clean_at(cs: Seq<char>, p: int) -> bool {
    &&& (cs[p] != '\t' && cs[p] != '\r' && cs[p] != '\n' ==> !spec_is_ascii_control(cs[p]))
    &&& (cs[p] == '\n' ==> p > 0 && cs[p - 1] == '\r')
    &&& (cs[p] == '\r' && p + 1 < cs.len() ==> cs[p + 1] == '\n')
}

/// `true` if every character of `cs` may stand in valid string data, but a carriage return at the end.
pub open spec fn spec_clean_prefix(cs: Seq<char>) -> bool {
    forall|p: int| 0 <= p < cs.len() ==> #[trigger] spec_clean_at(cs, p)
}

/// `true` if a string reads back unchanged and valid from its UTF-16 data.
pub open spec fn spec_clean(cs: Seq<char>) -> bool {
    spec_clean_prefix(cs) && (cs.len() > 0 ==> cs.last() != '\r')
}

/// Convert a code point to a `char`; calls `char::from_u32`, which gives `None` exactly for surrogate code points and
/// values above U+10FFFF.
#[verifier::external_body]
pub(crate) fn char_from_u32(v: u32) -> (r: Option<char>)
    ensures
        (v <= 0xD7FF || (0xE000 <= v && v <= 0x10FFFF)) ==> r == Some(v as char),
        !(v <= 0xD7FF || (0xE000 <= v && v <= 0x10FFFF)) ==> r is None,
{
    char::from_u32(v)
}

/// Decode UTF-16, replacing each unit that is not part of a valid encoding with U+FFFD.
fn decode_utf16_lossy(units: &[u16]) -> (r: (Vec<char>, bool))
    ensures
        (r.0@, r.1) == spec_decode_utf16(units@),
{
    let mut out: Vec<char> = Vec::new();
    let mut valid = true;
    let mut i: usize = 0;
    assert(units@.subrange(0, units@.len() as int) =~= units@);
    while i < units.len()
        invariant
            i <= units@.len(),
            ({
                let rest = spec_decode_utf16(units@.subrange(i as int, units@.len() as int));
                spec_decode_utf16(units@) == (out@ + rest.0, valid && rest.1)
            }),
        decreases units@.len() - i,
    {
        let ghost rest = units@.subrange(i as int, units@.len() as int);
        let ghost old_out = out@;
        let u = units[i];
        if u < 0xD800 || u > 0xDFFF {
            let c = match char_from_u32(u as u32) {
                Some(c) => c,
                None => '\u{FFFD}',
            };
            out.push(c);
            proof {
                assert(rest.drop_first() =~= units@.subrange(i + 1, units@.len() as int));
                assert(old_out + (seq![u as char] + spec_decode_utf16(rest.drop_first()).0) =~= out@ + spec_decode_utf16(
                    rest.drop_first(),
                ).0);
            }
            i = i + 1;
        } else if u <= 0xDBFF && i + 1 < units.len() && units[i + 1] >= 0xDC00 && units[i + 1] <= 0xDFFF {
            let low = units[i + 1];
            let v: u32 = 0x10000 + (u as u32 - 0xD800) * 0x400 + (low as u32 - 0xDC00);
            let c = match char_from_u32(v) {
                Some(c) => c,
                None => '\u{FFFD}',
            };
            out.push(c);
            proof {
                assert(rest[1] == low);
                assert(v as int == spec_pair_code_point(u, low));
                assert(rest.subrange(2, rest.len() as int) =~= units@.subrange(i + 2, units@.len() as int));
                assert(old_out + (seq![v as char] + spec_decode_utf16(rest.subrange(2, rest.len() as int)).0)
                    =~= out@ + spec_decode_utf16(rest.subrange(2, rest.len() as int)).0);
            }
            i = i + 2;
        } else {
            out.push('\u{FFFD}');
            valid = false;
            proof {
                if i + 1 < units@.len() {
                    assert(rest[1] == units@[i + 1]);
                }
                assert(rest.drop_first() =~= units@.subrange(i + 1, units@.len() as int));
                assert(old_out + (seq!['\u{FFFD}'] + spec_decode_utf16(rest.drop_first()).0) =~= out@
                    + spec_decode_utf16(rest.drop_first()).0);
            }
            i = i + 1;
        }
    }
    proof {
        assert(out@ + Seq::<char>::empty() =~= out@);
    }
    (out, valid)
}

/// Filter line breaks and control characters; the second value is `true` if anything had to be changed.
fn filter_control_characters(cs: &[char]) -> (r: (Vec<char>, bool))
    ensures
        (r.0@, r.1) == spec_filter(cs@),
{
    let mut out: Vec<char> = Vec::new();
    let mut last: Option<char> = None;
    let mut changed = false;
    let mut i: usize = 0;
    while i < cs.len()
        invariant
            i <= cs@.len(),
            (out@, last, changed) == spec_filter_upto(cs@, i as nat),
        decreases cs@.len() - i,
    {
        let n = cs[i];
        let after: Option<char> = if i + 1 < cs.len() {
            Some(cs[i + 1])
        } else {
            None
        };
        let last_is_cr = match last {
            Some(c) => c == '\r',
            None => false,
        };
        let after_is_lf = match after {
            Some(c) => c == '\n',
            None => false,
        };
        if n == '\n' {
            if !last_is_cr {
                out.push('\r');
                changed = true;
            }
            out.push(n);
            last = Some(n);
        } else if n == '\r' {
            if !after_is_lf {
                changed = true;
            } else {
                out.push(n);
                last = Some(n);
            }
        } else if n != '\t' && (n <= '\u{1F}' || n == '\u{7F}') {
            changed = true;
        } else {
            out.push(n);
            last = Some(n);
        }
        i = i + 1;
    }
    (out, changed)
}

/// The parsed contents of UTF-16 string data.
#[derive(Clone)]
struct VerifiedString {
    data: Arc<String>,
    corrupt: bool,
}

/// A UTF-16, null terminated string.
///
/// All characters are little endian, with no BOM.
#[derive(Clone, PartialEq, Eq, Debug)]
pub struct UTF16String {
    data: Vec<u8>,
}

impl View for UTF16String {
    type V = Seq<u8>;

    /// The raw UTF-16 bytes.
    closed spec fn view(&self) -> Seq<u8> {
        self.data@
    }
}

impl UTF16String {
    /// Get the string; fails with [`Error::InvalidTagData`] if the data is corrupt.
    pub fn get_string(&self) -> (r: RinghopperResult<Arc<String>>)
        ensures
            !spec_parse_utf16(self@).1 ==> (r matches Ok(s) && s@ == spec_parse_utf16(self@).0),
            spec_parse_utf16(self@).1 ==> (r matches Err(Error::InvalidTagData(m)) && m@ == "invalid UTF-16 data"@),
    {
        let result = self.try_parse();
        if result.corrupt {
            Err(Error::InvalidTagData("invalid UTF-16 data".to_owned()))
        } else {
            Ok(result.data)
        }
    }

    /// Get a string.
    ///
    /// If the string is invalid, the `Err` value will be the lossy data.
    pub fn get_string_lossy(&self) -> (r: Result<Arc<String>, Arc<String>>)
        ensures
            !spec_parse_utf16(self@).1 ==> (r matches Ok(s) && s@ == spec_parse_utf16(self@).0),
            spec_parse_utf16(self@).1 ==> (r matches Err(s) && s@ == spec_parse_utf16(self@).0),
    {
        let result = self.try_parse();
        if result.corrupt {
            Err(result.data)
        } else {
            Ok(result.data)
        }
    }

    /// The string as it is displayed: the lossy string, whether or not the data is corrupt.
    pub fn to_string(&self) -> (r: String)
        ensures
            r@ == spec_parse_utf16(self@).0,
    {
        match self.get_string_lossy() {
            Ok(n) => (*n).clone(),
            Err(n) => (*n).clone(),
        }
    }

    /// Get the bytes for the underlying UTF-16 data.
    pub fn get_utf16_bytes(&self) -> (r: &[u8])
        ensures
            r@ == self@,
    {
        self.data.as_slice()
    }

    /// Wrap raw UTF-16 bytes, whether or not they are valid.
    pub fn from_bytes(bytes: &[u8]) -> (r: UTF16String)
        ensures
            r@ == bytes@,
    {
        UTF16String { data: vstd::slice::slice_to_vec(bytes) }
    }

    fn try_parse(&self) -> (r: VerifiedString)
        ensures
            r.data@ == spec_parse_utf16(self@).0,
            r.corrupt == spec_parse_utf16(self@).1,
    {
        let data = &self.data;
        let n = data.len();
        if n % 2 != 0 || n == 0 {
            return VerifiedString { data: Arc::new(String::new()), corrupt: true };
        }
        let terminated = data[n - 2] == 0 && data[n - 1] == 0;
        let end = if terminated {
            n - 2
        } else {
            n
        };
        let ghost range = if terminated {
            data@.take(n - 2)
        } else {
            data@
        };
        let ghost all = spec_units_le(range);
        let count = end / 2;
        let mut units: Vec<u16> = Vec::new();
        let mut zero = false;
        let mut j: usize = 0;
        proof {
            assert(range.len() == end);
            assert(all.len() == count);
            assert(all.subrange(0, count as int) =~= all);
        }
        while j < count
            invariant
                j <= count,
                count * 2 <= end <= n,
                n == data@.len(),
                range.len() == end,
                range =~= data@.take(end as int),
                all == spec_units_le(range),
                all.len() == count,
                zero ==> spec_take_nonzero(all) == (units@, true),
                !zero ==> ({
                    let rest = spec_take_nonzero(all.subrange(j as int, count as int));
                    spec_take_nonzero(all) == (units@ + rest.0, rest.1)
                }),
            decreases count - j,
        {
            if !zero {
                let ghost rest = all.subrange(j as int, count as int);
                let lo = data[2 * j];
                let hi = data[2 * j + 1];
                let u: u16 = (lo as u16) + (hi as u16) * 256;
                proof {
                    assert(all[j as int] == spec_unit_le(range[2 * j], range[2 * j + 1]));
                    assert(range[2 * j] == lo && range[2 * j + 1] == hi);
                    assert(rest[0] == u);
                    assert(rest.drop_first() =~= all.subrange(j + 1, count as int));
                }
                if u == 0 {
                    zero = true;
                    proof {
                        assert(units@ + Seq::<u16>::empty() =~= units@);
                    }
                } else {
                    let ghost old_units = units@;
                    units.push(u);
                    proof {
                        let r2 = spec_take_nonzero(rest.drop_first());
                        assert(old_units + (seq![u] + r2.0) =~= units@ + r2.0);
                    }
                }
            }
            j = j + 1;
        }
        proof {
            if !zero {
                assert(all.subrange(j as int, count as int) =~= Seq::<u16>::empty());
                assert(units@ + Seq::<u16>::empty() =~= units@);
            }
        }
        let decoded = decode_utf16_lossy(units.as_slice());
        let filtered = filter_control_characters(decoded.0.as_slice());
        let corrupt = !terminated || zero || !decoded.1 || filtered.1;
        VerifiedString { data: Arc::new(string_from_chars(filtered.0.as_slice())), corrupt }
    }
}

/// A `char` is a Unicode scalar value.
proof fn lemma_char_range(c: char)
    ensures
        0 <= c as int <= 0x10FFFF,
        !(0xD800 <= c as int <= 0xDFFF),
{
    vstd::utf8::char_is_scalar(c);
}

/// Code units read back from their little endian bytes.
proof fn lemma_units_roundtrip(units: Seq<u16>)
    ensures
        spec_units_le(spec_units_to_bytes(units)) =~= units,
{
    let b = spec_units_to_bytes(units);
    assert forall|i: int| 0 <= i < units.len() implies #[trigger] spec_units_le(b)[i] == units[i] by {
        assert((2 * i) % 2 == 0 && (2 * i) / 2 == i);
        assert((2 * i + 1) % 2 == 1 && (2 * i + 1) / 2 == i);
        let u = units[i];
        assert(u % 256 + (u / 256) * 256 == u);
    }
}

/// The bytes of code units, one more unit at the end.
proof fn lemma_units_to_bytes_push(units: Seq<u16>, u: u16)
    ensures
        spec_units_to_bytes(units.push(u)) =~= spec_units_to_bytes(units).push((u % 256) as u8).push((u / 256) as u8),
{
    let n = units.len() as int;
    assert((2 * n) % 2 == 0 && (2 * n) / 2 == n);
    assert((2 * n + 1) % 2 == 1 && (2 * n + 1) / 2 == n);
}

/// The code units of a string, one more character at the end.
proof fn lemma_encode_push(cs: Seq<char>, c: char)
    ensures
        spec_encode_utf16(cs.push(c)) =~= spec_encode_utf16(cs) + spec_encode_char(c),
    decreases cs.len(),
{
    let pushed = cs.push(c);
    if cs.len() == 0 {
        assert(pushed.drop_first() =~= Seq::<char>::empty());
        assert(spec_encode_utf16(pushed) == spec_encode_char(c) + spec_encode_utf16(Seq::<char>::empty()));
        assert(spec_encode_char(c) + Seq::<u16>::empty() =~= spec_encode_char(c));
        assert(spec_encode_utf16(cs) == Seq::<u16>::empty());
        assert(Seq::<u16>::empty() + spec_encode_char(c) =~= spec_encode_char(c));
    } else {
        assert(pushed.drop_first() =~= cs.drop_first().push(c));
        assert(pushed[0] == cs[0]);
        lemma_encode_push(cs.drop_first(), c);
        let a = spec_encode_char(cs[0]);
        let b = spec_encode_utf16(cs.drop_first());
        assert(spec_encode_utf16(pushed) == a + spec_encode_utf16(cs.drop_first().push(c)));
        assert(a + (b + spec_encode_char(c)) =~= (a + b) + spec_encode_char(c));
    }
}

/// The code units of one character decode back to it.
proof fn lemma_decode_encode_char(c: char, rest: Seq<u16>)
    ensures
        spec_decode_utf16(spec_encode_char(c) + rest) == (seq![c] + spec_decode_utf16(rest).0, spec_decode_utf16(rest).1),
{
    let e = spec_encode_char(c) + rest;
    let v = c as int;
    lemma_char_range(c);
    if v < 0x10000 {
        assert(e[0] == v as u16);
        assert(e.drop_first() =~= rest);
        assert((e[0] as int) as char == c);
    } else {
        let w = v - 0x10000;
        assert(w == (w / 0x400) * 0x400 + w % 0x400) by (nonlinear_arith);
        assert(0 <= w / 0x400 <= 0x3FF) by (nonlinear_arith)
            requires
                0 <= w <= 0xFFFFF,
        ;
        assert(e[0] == (0xD800 + w / 0x400) as u16);
        assert(e[1] == (0xDC00 + w % 0x400) as u16);
        assert(spec_pair_code_point(e[0], e[1]) == v);
        assert(e.subrange(2, e.len() as int) =~= rest);
    }
}

/// The code units of a string decode back to it, and are valid.
pub proof fn lemma_decode_encode(cs: Seq<char>)
    ensures
        spec_decode_utf16(spec_encode_utf16(cs)) == (cs, true),
    decreases cs.len(),
{
    if cs.len() == 0 {
    } else {
        lemma_decode_encode(cs.drop_first());
        lemma_decode_encode_char(cs[0], spec_encode_utf16(cs.drop_first()));
        assert(seq![cs[0]] + cs.drop_first() =~= cs);
    }
}

/// The code units of a string without a null character hold no zero.
proof fn lemma_take_nonzero_encode(cs: Seq<char>)
    requires
        forall|i: int| 0 <= i < cs.len() ==> (#[trigger] cs[i] as int) != 0,
    ensures
        spec_take_nonzero(spec_encode_utf16(cs)) == (spec_encode_utf16(cs), false),
    decreases cs.len(),
{
    if cs.len() > 0 {
        let rest = spec_encode_utf16(cs.drop_first());
        lemma_take_nonzero_encode(cs.drop_first());
        let e = spec_encode_char(cs[0]);
        let all = e + rest;
        assert((cs[0] as int) != 0);
        assert(cs.drop_first().len() == cs.len() - 1);
        assert forall|i: int| 0 <= i < cs.drop_first().len() implies (#[trigger] cs.drop_first()[i] as int) != 0 by {
            assert(cs.drop_first()[i] == cs[i + 1]);
        }
        lemma_char_range(cs[0]);
        if (cs[0] as int) < 0x10000 {
            assert(e =~= seq![(cs[0] as int) as u16]);
            assert(all[0] == e[0]);
            assert(all[0] != 0);
            assert(all.drop_first() =~= rest);
        } else {
            let w = cs[0] as int - 0x10000;
            assert(0 <= w / 0x400 <= 0x3FF) by (nonlinear_arith)
                requires
                    0 <= w <= 0xFFFFF,
            ;
            assert(0 <= w % 0x400 < 0x400);
            assert(all[0] != 0);
            let d = all.drop_first();
            assert(d[0] != 0);
            assert(d.drop_first() =~= rest);
            assert(spec_take_nonzero(d) == (seq![d[0]] + spec_take_nonzero(d.drop_first()).0, false));
            assert(seq![d[0]] + rest =~= d);
        }
        assert(spec_take_nonzero(all.drop_first()) == (all.drop_first(), false));
        assert(all =~= seq![all[0]] + all.drop_first());
    }
}

/// Adding a character to a clean prefix keeps it clean, if the character may stand there.
proof fn lemma_clean_prefix_push(out: Seq<char>, x: char)
    requires
        spec_clean_prefix(out),
        x != '\t' && x != '\r' && x != '\n' ==> !spec_is_ascii_control(x),
        x == '\n' ==> out.len() > 0 && out.last() == '\r',
        out.len() > 0 && out.last() == '\r' ==> x == '\n',
    ensures
        spec_clean_prefix(out.push(x)),
{
    let n = out.push(x);
    assert forall|p: int| 0 <= p < n.len() implies #[trigger] spec_clean_at(n, p) by {
        if p < out.len() {
            assert(spec_clean_at(out, p));
            if p > 0 {
                assert(n[p - 1] == out[p - 1]);
            }
        }
    }
}

/// What holds of the filter's state after `k` characters: the last character kept is the last one of the output,
/// which is clean but maybe for a carriage return at its end, and only when a line feed comes next.
proof fn lemma_filter_state(cs: Seq<char>, k: nat)
    requires
        k <= cs.len(),
    ensures
        ({
            let (out, last, _) = spec_filter_upto(cs, k);
            &&& last == (if out.len() > 0 { Some(out.last()) } else { None::<char> })
            &&& spec_clean_prefix(out)
            &&& (out.len() > 0 && out.last() == '\r' ==> k < cs.len() && cs[k as int] == '\n')
        }),
    decreases k,
{
    if k > 0 {
        lemma_filter_state(cs, (k - 1) as nat);
        let (out, last, changed) = spec_filter_upto(cs, (k - 1) as nat);
        let n = cs[k - 1];
        if n == '\n' {
            if last != Some('\r') {
                lemma_clean_prefix_push(out, '\r');
                lemma_clean_prefix_push(out.push('\r'), '\n');
            } else {
                lemma_clean_prefix_push(out, '\n');
            }
        } else if n == '\r' {
            if k < cs.len() && cs[k as int] == '\n' {
                lemma_clean_prefix_push(out, '\r');
            }
        } else if n != '\t' && spec_is_ascii_control(n) {
        } else {
            lemma_clean_prefix_push(out, n);
        }
    }
}

/// The filter's output is clean.
pub proof fn lemma_filter_clean(cs: Seq<char>)
    ensures
        spec_clean(spec_filter(cs).0),
{
    lemma_filter_state(cs, cs.len());
}

/// A clean string passes the filter unchanged.
proof fn lemma_filter_identity_upto(cs: Seq<char>, k: nat)
    requires
        spec_clean(cs),
        k <= cs.len(),
    ensures
        spec_filter_upto(cs, k) == (cs.take(k as int), if k == 0 { None::<char> } else { Some(cs[k - 1]) }, false),
    decreases k,
{
    if k > 0 {
        lemma_filter_identity_upto(cs, (k - 1) as nat);
        let n = cs[k - 1];
        assert(spec_clean_at(cs, k - 1));
        assert(cs.take(k - 1).push(n) =~= cs.take(k as int));
        if n == '\n' {
            assert(cs.take(k - 1).push('\n') =~= cs.take(k as int));
        }
        if n == '\r' {
            if k >= cs.len() {
                assert(cs.last() == '\r');
            }
        }
    }
}

/// A clean string passes the filter unchanged.
pub proof fn lemma_filter_identity(cs: Seq<char>)
    requires
        spec_clean(cs),
    ensures
        spec_filter(cs) == (cs, false),
{
    lemma_filter_identity_upto(cs, cs.len());
    assert(cs.take(cs.len() as int) =~= cs);
}

/// What UTF-16 data reads as is clean.
pub proof fn lemma_parse_clean(data: Seq<u8>)
    ensures
        spec_clean(spec_parse_utf16(data).0),
{
    if data.len() % 2 != 0 || data.len() == 0 {
    } else {
        let terminated = data[data.len() - 2] == 0 && data[data.len() - 1] == 0;
        let range = if terminated {
            data.take(data.len() - 2)
        } else {
            data
        };
        let units = spec_take_nonzero(spec_units_le(range));
        lemma_filter_clean(spec_decode_utf16(units.0).0);
    }
}

/// The UTF-16 data written from a clean string reads back as that string, and is valid.
pub proof fn law_utf16_roundtrip(cs: Seq<char>)
    requires
        spec_clean(cs),
    ensures
        spec_parse_utf16(spec_utf16_data(cs)) == (cs, false),
{
    let units = spec_encode_utf16(cs);
    let b = spec_units_to_bytes(units);
    let data = spec_utf16_data(cs);
    assert(data.take(data.len() - 2) =~= b);
    assert(data[data.len() - 2] == 0 && data[data.len() - 1] == 0);
    lemma_units_roundtrip(units);
    assert forall|i: int| 0 <= i < cs.len() implies (#[trigger] cs[i] as int) != 0 by {
        assert(spec_clean_at(cs, i));
    }
    lemma_take_nonzero_encode(cs);
    lemma_decode_encode(cs);
    lemma_filter_identity(cs);
}

/// The UTF-16 string data of `cs`.
fn encode_chars(cs: &[char]) -> (r: UTF16String)
    ensures
        r@ == spec_utf16_data(cs@),
{
    let mut units: Vec<u16> = Vec::new();
    let mut i: usize = 0;
    while i < cs.len()
        invariant
            i <= cs@.len(),
            units@ == spec_encode_utf16(cs@.take(i as int)),
        decreases cs@.len() - i,
    {
        let c = cs[i];
        let v = c as u32;
        let ghost old_units = units@;
        if v < 0x10000 {
            units.push(v as u16);
        } else {
            let w = v - 0x10000;
            units.push((0xD800 + w / 0x400) as u16);
            units.push((0xDC00 + w % 0x400) as u16);
        }
        proof {
            lemma_encode_push(cs@.take(i as int), c);
            assert(cs@.take(i + 1) =~= cs@.take(i as int).push(c));
            lemma_char_range(c);
            if v >= 0x10000 {
                let w = v - 0x10000;
                assert(0 <= w / 0x400 <= 0x3FF) by (nonlinear_arith)
                    requires
                        0 <= w <= 0xFFFFF,
                ;
                assert(spec_encode_char(c) =~= seq![(0xD800 + w / 0x400) as u16, (0xDC00 + w % 0x400) as u16]);
            } else {
                assert(spec_encode_char(c) =~= seq![v as u16]);
            }
            assert(units@ =~= old_units + spec_encode_char(c));
        }
        i = i + 1;
    }
    proof {
        assert(cs@.take(cs@.len() as int) =~= cs@);
    }
    let mut data: Vec<u8> = Vec::new();
    let mut j: usize = 0;
    while j < units.len()
        invariant
            j <= units@.len(),
            data@ == spec_units_to_bytes(units@.take(j as int)),
        decreases units@.len() - j,
    {
        let u = units[j];
        data.push((u % 256) as u8);
        data.push((u / 256) as u8);
        proof {
            lemma_units_to_bytes_push(units@.take(j as int), u);
            assert(units@.take(j + 1) =~= units@.take(j as int).push(u));
        }
        j = j + 1;
    }
    proof {
        assert(units@.take(units@.len() as int) =~= units@);
    }
    data.push(0);
    data.push(0);
    UTF16String { data }
}

impl UTF16String {
    /// Create a UTF-16 string from a string reference.
    ///
    /// The return value is guaranteed to be a valid UTF-16 string: where the string's own data would be corrupt, the
    /// data of the string it reads back as is used instead.
    pub fn from_str(string: &str) -> (r: UTF16String)
        ensures
            r@ == (if spec_parse_utf16(spec_utf16_data(string@)).1 {
                spec_utf16_data(spec_parse_utf16(spec_utf16_data(string@)).0)
            } else {
                spec_utf16_data(string@)
            }),
            !spec_parse_utf16(r@).1,
    {
        let chars = chars_of(string);
        let first = encode_chars(chars.as_slice());
        match first.get_string_lossy() {
            Ok(_) => first,
            Err(n) => {
                let lossy = chars_of(n.as_str());
                proof {
                    lemma_parse_clean(first@);
                    law_utf16_roundtrip(lossy@);
                }
                encode_chars(lossy.as_slice())
            },
        }
    }
}

impl Default for UTF16String {
    /// The empty string: just the null terminator.
    fn default() -> (r: UTF16String)
        ensures
            r@ == seq![0u8, 0u8],
    {
        UTF16String { data: vec![0, 0] }
    }
}

impl TagData for UTF16String {
    type Model = Seq<u8>;

    open spec fn spec_model(&self) -> Seq<u8> {
        self@
    }

    open spec fn spec_size() -> nat {
        20
    }

    open spec fn spec_read_tag(data: Seq<u8>, at: int, struct_end: int, cursor: int) -> RinghopperResult<(Seq<u8>, int)> {
        spec_read_data_bytes(data, at, struct_end, cursor)
    }

    open spec fn spec_write_tag(model: Seq<u8>, data: Seq<u8>, at: int, struct_end: int) -> RinghopperResult<Seq<u8>> {
        spec_write_data_bytes(model, data, at)
    }

    open spec fn spec_read_map(map: MapView, address: int, domain: DomainType) -> Result<Seq<u8>, MapReadError> {
        spec_read_data_from_map(map, address, domain)
    }

    fn size() -> (r: usize) {
        20
    }

    fn read_from_tag_file(data: &[u8], at: usize, struct_end: usize, extra_data_cursor: &mut usize) -> (r: RinghopperResult<UTF16String>) {
        Ok(UTF16String { data: read_data_bytes(data, at, struct_end, extra_data_cursor)? })
    }

    fn write_to_tag_file(&self, data: &mut Vec<u8>, at: usize, struct_end: usize) -> (r: RinghopperResult<()>) {
        write_data_bytes(self.data.as_slice(), data, at, struct_end)
    }

    fn read_from_map<M: CacheMap>(map: &M, address: usize, domain_type: &DomainType) -> (r: RinghopperResult<UTF16String>) {
        Ok(UTF16String { data: read_data_from_map(map, address, domain_type)? })
    }
}

impl core::str::FromStr for UTF16String {
    type Err = ();

    fn from_str(s: &str) -> Result<UTF16String, ()> {
        Ok(UTF16String::from_str(s))
    }
}

} // verus!

//! 32-byte null terminated UTF-8 strings, and the lossy reading of raw bytes into them.

use vstd::prelude::*;
use vstd::string::StringSliceAdditionalSpecFns;
use vstd::utf8::{
    valid_utf8, valid_first_scalar, take_first_scalar, pop_first_scalar, length_of_first_scalar,
    is_continuation_byte, is_char_boundary,
};
use crate::endian::spec_splice;
use crate::primitive::data::spec_zeros;
use crate::error::{Error, RinghopperResult};
use crate::parse::{SimpleTagData, spec_fits, spec_read_bytes, fits};
use crate::endian::ByteOrder;
use crate::text::str_from_utf8;

verus! {

/// The length of a null terminated string: the index of the first zero byte, or the whole length.
pub open spec fn spec_strlen(b: Seq<u8>) -> int
    decreases b.len(),
{
    if b.len() == 0 || b[0] == 0 {
        0
    } else {
        1 + spec_strlen(b.drop_first())
    }
}

/// `true` if `b` is the data of a valid 32-byte string: there is a null terminator, and the bytes before it are
/// UTF-8.
pub open spec fn spec_string32_valid(b: Seq<u8>) -> bool {
    &&& b.len() == 32
    &&& spec_strlen(b) < 32
    &&& valid_utf8(b.take(spec_strlen(b)))
}

/// The number of bytes that lossy UTF-8 reading replaces at the start of `b`, which holds no valid character there:
/// the longest start of a well-formed sequence, at least one byte.
pub open spec fn spec_invalid_len(b: Seq<u8>) -> int {
    let b0 = b[0];
    let width = if 0xC2 <= b0 <= 0xDF {
        2int
    } else if 0xE0 <= b0 <= 0xEF {
        3int
    } else if 0xF0 <= b0 <= 0xF4 {
        4int
    } else {
        1int
    };
    let second_ok = b.len() >= 2 && if b0 == 0xE0 {
        0xA0 <= b[1] <= 0xBF
    } else if b0 == 0xED {
        0x80 <= b[1] <= 0x9F
    } else if b0 == 0xF0 {
        0x90 <= b[1] <= 0xBF
    } else if b0 == 0xF4 {
        0x80 <= b[1] <= 0x8F
    } else {
        0x80 <= b[1] <= 0xBF
    };
    if width == 1 || !second_ok || width == 2 {
        1
    } else if b.len() < 3 || !is_continuation_byte(b[2]) || width == 3 {
        2
    } else {
        3
    }
}

/// Lossy reading of UTF-8 bytes, writing `_` for each ill-formed part and for each U+FFFD: the bytes, and whether
/// all of `b` was valid UTF-8.
pub open spec fn spec_utf8_lossy_underscore(b: Seq<u8>) -> (Seq<u8>, bool)
    decreases b.len(),
{
    if b.len() == 0 {
        (Seq::empty(), true)
    } else if valid_first_scalar(b) {
        let rest = spec_utf8_lossy_underscore(pop_first_scalar(b));
        let head = take_first_scalar(b);
        let out = if head == seq![0xEFu8, 0xBFu8, 0xBDu8] {
            seq![0x5Fu8]
        } else {
            head
        };
        (out + rest.0, rest.1)
    } else {
        let n = spec_invalid_len(b);
        let rest = if 1 <= n <= b.len() {
            spec_utf8_lossy_underscore(b.subrange(n, b.len() as int))
        } else {
            (Seq::empty(), false)
        };
        (seq![0x5Fu8] + rest.0, false)
    }
}

/// Reading 32 raw bytes as a string: the bytes before the first zero (at most 31), kept when they are valid UTF-8
/// and read lossily otherwise, then zeros.
pub open spec fn spec_string32_from_bytes(bytes: Seq<u8>) -> Seq<u8> {
    let len = if spec_strlen(bytes) >= 32 {
        31
    } else {
        spec_strlen(bytes)
    };
    let prefix = bytes.take(len);
    let kept = if valid_utf8(prefix) {
        prefix
    } else {
        spec_utf8_lossy_underscore(prefix).0
    };
    kept + spec_zeros((32 - kept.len()) as nat)
}

/// A 32-byte null-terminated string.
#[derive(Copy, Clone, PartialEq, Eq, Hash, Debug)]
pub struct String32 {
    string_data: [u8; 32],
}

impl View for String32 {
    type V = Seq<u8>;

    /// The 32 bytes of the string.
    closed spec fn view(&self) -> Seq<u8> {
        self.string_data@
    }
}

/// Find the length of a null terminated string in 32 bytes.
fn strlen(bytes: &[u8; 32]) -> (r: usize)
    ensures
        r == spec_strlen(bytes@),
{
    let mut i: usize = 0;
    while i < 32
        invariant
            i <= 32,
            bytes@.len() == 32,
            forall|j: int| 0 <= j < i ==> bytes@[j] != 0,
        decreases 32 - i,
    {
        if bytes[i] == 0 {
            proof {
                lemma_strlen_at(bytes@, i as int);
            }
            return i;
        }
        i = i + 1;
    }
    proof {
        lemma_strlen_at(bytes@, 32);
    }
    32
}

/// The bytes of the scalar at the start of `b[at..]`, if it starts with a valid one.
fn first_scalar_len(b: &[u8], at: usize) -> (r: Option<usize>)
    requires
        at < b@.len(),
    ensures
        valid_first_scalar(b@.subrange(at as int, b@.len() as int)) ==> r == Some(
            length_of_first_scalar(b@.subrange(at as int, b@.len() as int)) as usize,
        ),
        !valid_first_scalar(b@.subrange(at as int, b@.len() as int)) ==> r is None,
        r matches Some(k) ==> 1 <= k <= b@.len() - at,
{
    let ghost s = b@.subrange(at as int, b@.len() as int);
    let n = b.len() - at;
    let b0 = b[at];
    if b0 <= 0x7F {
        return Some(1);
    }
    if b0 >= 0xC0 && b0 <= 0xDF {
        if n < 2 || b[at + 1] < 0x80 || b[at + 1] > 0xBF {
            return None;
        }
        let b1 = b[at + 1];
        let cp: u32 = (((b0 & 0x1F) as u32) << 6) | ((b1 & 0x3F) as u32);
        proof {
            assert(s[0] == b0 && s[1] == b1);
        }
        if cp >= 0x80 && !(0xD800 <= cp && cp <= 0xDFFF) {
            return Some(2);
        }
        return None;
    }
    if b0 >= 0xE0 && b0 <= 0xEF {
        if n < 3 || b[at + 1] < 0x80 || b[at + 1] > 0xBF || b[at + 2] < 0x80 || b[at + 2] > 0xBF {
            return None;
        }
        let b1 = b[at + 1];
        let b2 = b[at + 2];
        let cp: u32 = (((b0 & 0x0F) as u32) << 12) | (((b1 & 0x3F) as u32) << 6) | ((b2 & 0x3F) as u32);
        proof {
            assert(s[0] == b0 && s[1] == b1 && s[2] == b2);
        }
        if cp >= 0x800 && !(0xD800 <= cp && cp <= 0xDFFF) {
            return Some(3);
        }
        return None;
    }
    if b0 >= 0xF0 && b0 <= 0xF7 {
        if n < 4 || b[at + 1] < 0x80 || b[at + 1] > 0xBF || b[at + 2] < 0x80 || b[at + 2] > 0xBF || b[at + 3]
            < 0x80 || b[at + 3] > 0xBF {
            return None;
        }
        let b1 = b[at + 1];
        let b2 = b[at + 2];
        let b3 = b[at + 3];
        let cp: u32 = (((b0 & 0x07) as u32) << 18) | (((b1 & 0x3F) as u32) << 12) | (((b2 & 0x3F) as u32) << 6)
            | ((b3 & 0x3F) as u32);
        proof {
            assert(s[0] == b0 && s[1] == b1 && s[2] == b2 && s[3] == b3);
        }
        if cp >= 0x10000 && cp <= 0x10FFFF && !(0xD800 <= cp && cp <= 0xDFFF) {
            return Some(4);
        }
        return None;
    }
    None
}

/// The number of bytes lossy reading replaces at the start of `b[at..]`.
fn invalid_len(b: &[u8], at: usize) -> (r: usize)
    requires
        at < b@.len(),
    ensures
        r == spec_invalid_len(b@.subrange(at as int, b@.len() as int)),
        1 <= r <= b@.len() - at,
{
    let ghost s = b@.subrange(at as int, b@.len() as int);
    let n = b.len() - at;
    let b0 = b[at];
    let width: usize = if 0xC2 <= b0 && b0 <= 0xDF {
        2
    } else if 0xE0 <= b0 && b0 <= 0xEF {
        3
    } else if 0xF0 <= b0 && b0 <= 0xF4 {
        4
    } else {
        1
    };
    let second_ok = n >= 2 && {
        let b1 = b[at + 1];
        if b0 == 0xE0 {
            0xA0 <= b1 && b1 <= 0xBF
        } else if b0 == 0xED {
            0x80 <= b1 && b1 <= 0x9F
        } else if b0 == 0xF0 {
            0x90 <= b1 && b1 <= 0xBF
        } else if b0 == 0xF4 {
            0x80 <= b1 && b1 <= 0x8F
        } else {
            0x80 <= b1 && b1 <= 0xBF
        }
    };
    proof {
        assert(s[0] == b0);
        if n >= 2 {
            assert(s[1] == b@[at + 1]);
        }
        if n >= 3 {
            assert(s[2] == b@[at + 2]);
        }
    }
    if width == 1 || !second_ok || width == 2 {
        1
    } else if n < 3 || !(0x80 <= b[at + 2] && b[at + 2] <= 0xBF) || width == 3 {
        2
    } else {
        3
    }
}

/// Read UTF-8 bytes lossily, writing `_` for each ill-formed part and each U+FFFD; the flag is `true` if all of
/// `b` was valid.
fn utf8_lossy_underscore(b: &[u8]) -> (r: (Vec<u8>, bool))
    ensures
        (r.0@, r.1) == spec_utf8_lossy_underscore(b@),
{
    let mut out: Vec<u8> = Vec::new();
    let mut valid = true;
    let mut i: usize = 0;
    assert(b@.subrange(0, b@.len() as int) =~= b@);
    while i < b.len()
        invariant
            i <= b@.len(),
            ({
                let rest = spec_utf8_lossy_underscore(b@.subrange(i as int, b@.len() as int));
                spec_utf8_lossy_underscore(b@) == (out@ + rest.0, valid && rest.1)
            }),
        decreases b@.len() - i,
    {
        let ghost s = b@.subrange(i as int, b@.len() as int);
        let ghost old_out = out@;
        match first_scalar_len(b, i) {
            Some(k) => {
                proof {
                    assert(pop_first_scalar(s) =~= b@.subrange(i + k, b@.len() as int));
                    assert(take_first_scalar(s) =~= b@.subrange(i as int, i + k));
                }
                if k == 3 && b[i] == 0xEF && b[i + 1] == 0xBF && b[i + 2] == 0xBD {
                    out.push(0x5F);
                    proof {
                        assert(take_first_scalar(s) =~= seq![0xEFu8, 0xBFu8, 0xBDu8]);
                    }
                } else {
                    let mut j: usize = 0;
                    while j < k
                        invariant
                            j <= k,
                            i + k <= b.len(),
                            out@ == old_out + b@.subrange(i as int, i + j),
                        decreases k - j,
                    {
                        out.push(b[i + j]);
                        proof {
                            assert(b@.subrange(i as int, i + j + 1) =~= b@.subrange(i as int, i + j).push(b@[i + j]));
                        }
                        j = j + 1;
                    }
                    proof {
                        if k == 3 && take_first_scalar(s) == seq![0xEFu8, 0xBFu8, 0xBDu8] {
                            assert(take_first_scalar(s)[0] == b@[i as int]);
                            assert(take_first_scalar(s)[1] == b@[i + 1]);
                            assert(take_first_scalar(s)[2] == b@[i + 2]);
                        }
                    }
                }
                proof {
                    let rest = spec_utf8_lossy_underscore(pop_first_scalar(s));
                    let head = if take_first_scalar(s) == seq![0xEFu8, 0xBFu8, 0xBDu8] {
                        seq![0x5Fu8]
                    } else {
                        take_first_scalar(s)
                    };
                    assert(out@ == old_out + head);
                    assert(old_out + (head + rest.0) =~= out@ + rest.0);
                }
                i = i + k;
            },
            None => {
                let k = invalid_len(b, i);
                out.push(0x5F);
                valid = false;
                proof {
                    assert(s.subrange(k as int, s.len() as int) =~= b@.subrange(i + k, b@.len() as int));
                    let rest = spec_utf8_lossy_underscore(b@.subrange(i + k, b@.len() as int));
                    assert(old_out + (seq![0x5Fu8] + rest.0) =~= out@ + rest.0);
                }
                i = i + k;
            },
        }
    }
    proof {
        assert(out@ + Seq::<u8>::empty() =~= out@);
    }
    (out, valid)
}

/// Lossy reading reports validity exactly when the bytes are valid UTF-8.
pub proof fn lemma_lossy_valid(b: Seq<u8>)
    ensures
        spec_utf8_lossy_underscore(b).1 == valid_utf8(b),
    decreases b.len(),
{
    if b.len() > 0 {
        if valid_first_scalar(b) {
            lemma_lossy_valid(pop_first_scalar(b));
        }
    }
}

/// Lossy reading never makes the bytes longer.
pub proof fn lemma_lossy_len(b: Seq<u8>)
    ensures
        spec_utf8_lossy_underscore(b).0.len() <= b.len(),
    decreases b.len(),
{
    if b.len() > 0 {
        if valid_first_scalar(b) {
            lemma_lossy_len(pop_first_scalar(b));
        } else {
            let n = spec_invalid_len(b);
            if 1 <= n <= b.len() {
                lemma_lossy_len(b.subrange(n, b.len() as int));
            }
        }
    }
}

/// The bytes of the first valid scalar are valid UTF-8 on their own.
proof fn lemma_first_scalar_valid(b: Seq<u8>)
    requires
        valid_first_scalar(b),
    ensures
        valid_utf8(take_first_scalar(b)),
{
    let t = take_first_scalar(b);
    assert(valid_first_scalar(t));
    assert(pop_first_scalar(t) =~= Seq::<u8>::empty());
    reveal_with_fuel(valid_utf8, 2);
}

/// Lossy reading gives valid UTF-8, and adds no zero byte.
pub proof fn lemma_lossy_output(b: Seq<u8>)
    ensures
        valid_utf8(spec_utf8_lossy_underscore(b).0),
        (forall|i: int| 0 <= i < b.len() ==> b[i] != 0) ==> (forall|i: int|
            0 <= i < spec_utf8_lossy_underscore(b).0.len() ==> spec_utf8_lossy_underscore(b).0[i] != 0),
    decreases b.len(),
{
    let underscore = seq![0x5Fu8];
    assert(valid_utf8(underscore)) by {
        assert(valid_first_scalar(underscore));
        assert(pop_first_scalar(underscore) =~= Seq::<u8>::empty());
        reveal_with_fuel(valid_utf8, 2);
    }
    if b.len() > 0 {
        if valid_first_scalar(b) {
            let p = pop_first_scalar(b);
            lemma_lossy_output(p);
            lemma_first_scalar_valid(b);
            let head = take_first_scalar(b);
            let out = if head == seq![0xEFu8, 0xBFu8, 0xBDu8] {
                underscore
            } else {
                head
            };
            vstd::utf8::valid_utf8_concat(out, spec_utf8_lossy_underscore(p).0);
            if forall|i: int| 0 <= i < b.len() ==> b[i] != 0 {
                assert forall|i: int| 0 <= i < p.len() implies p[i] != 0 by {
                    assert(p[i] == b[i + length_of_first_scalar(b)]);
                }
                let r = out + spec_utf8_lossy_underscore(p).0;
                assert forall|i: int| 0 <= i < r.len() implies r[i] != 0 by {
                    if i < out.len() && out != underscore {
                        assert(out[i] == b[i]);
                    }
                }
            }
        } else {
            let n = spec_invalid_len(b);
            if 1 <= n <= b.len() {
                let p = b.subrange(n, b.len() as int);
                lemma_lossy_output(p);
                vstd::utf8::valid_utf8_concat(underscore, spec_utf8_lossy_underscore(p).0);
                if forall|i: int| 0 <= i < b.len() ==> b[i] != 0 {
                    assert forall|i: int| 0 <= i < p.len() implies p[i] != 0 by {
                        assert(p[i] == b[i + n]);
                    }
                }
            } else {
                assert(underscore + Seq::<u8>::empty() =~= underscore);
            }
        }
    }
}

/// What the length of a null terminated string says of its bytes.
proof fn lemma_strlen(b: Seq<u8>)
    ensures
        0 <= spec_strlen(b) <= b.len(),
        forall|j: int| 0 <= j < spec_strlen(b) ==> b[j] != 0,
        spec_strlen(b) < b.len() ==> b[spec_strlen(b)] == 0,
    decreases b.len(),
{
    if b.len() > 0 && b[0] != 0 {
        lemma_strlen(b.drop_first());
        assert forall|j: int| 0 <= j < spec_strlen(b) implies b[j] != 0 by {
            if j > 0 {
                assert(b[j] == b.drop_first()[j - 1]);
            }
        }
    }
}

/// The length of a null terminated string is the first index holding a zero, or the whole length.
/// A string of fewer than 32 bytes with no null character, stored as a 32-byte string, reads back as itself.
pub proof fn law_string32_roundtrip(b: Seq<u8>)
    requires
        b.len() < 32,
        forall|i: int| 0 <= i < b.len() ==> b[i] != 0,
    ensures
        ({
            let stored = b + spec_zeros((32 - b.len()) as nat);
            stored.take(spec_strlen(stored)) == b
        }),
{
    let stored = b + spec_zeros((32 - b.len()) as nat);
    lemma_strlen_at(stored, b.len() as int);
    assert(stored.take(b.len() as int) =~= b);
}

proof fn lemma_strlen_at(b: Seq<u8>, k: int)
    requires
        0 <= k <= b.len(),
        forall|j: int| 0 <= j < k ==> b[j] != 0,
        k < b.len() ==> b[k] == 0,
    ensures
        spec_strlen(b) == k,
{
    lemma_strlen(b);
    let l = spec_strlen(b);
    if l < k {
        assert(b[l] != 0);
    } else if k < l {
        assert(b[k] != 0);
    }
}

/// Two strings with the same bytes are equal.
proof fn lemma_string32_view_injective(a: String32, b: String32)
    requires
        a@ == b@,
    ensures
        a == b,
{
    assert(a.string_data =~= b.string_data);
}

/// Bytes that start with valid UTF-8 and then hold only zeros are the data of a valid string, if a zero is among
/// them.
proof fn lemma_string32_valid(kept: Seq<u8>)
    requires
        valid_utf8(kept),
        kept.len() < 32,
    ensures
        spec_string32_valid(kept + spec_zeros((32 - kept.len()) as nat)),
{
    let b = kept + spec_zeros((32 - kept.len()) as nat);
    lemma_strlen(b);
    let k = spec_strlen(b);
    assert(b[kept.len() as int] == 0);
    assert(k <= kept.len());
    if k < kept.len() {
        assert(kept[k] == 0);
        vstd::utf8::is_char_boundary_iff_not_is_continuation_byte(kept, k);
        assert(is_char_boundary(kept, k));
        vstd::utf8::valid_utf8_split(kept, k);
        assert(b.take(k) =~= kept.subrange(0, k));
    } else {
        assert(b.take(k) =~= kept);
    }
}

impl String32 {
    #[verifier::type_invariant]
    pub(crate) closed spec fn well_formed(self) -> bool {
        spec_string32_valid(self.string_data@)
    }

    /// The data of a string is that of a valid string, and 32 bytes long.
    pub(crate) proof fn lemma_well_formed(self)
        requires
            self.well_formed(),
        ensures
            spec_string32_valid(self@),
            self@.len() == 32,
    {
    }

    /// Build a string from bytes that start with valid UTF-8 and then hold only zeros.
    fn from_kept(kept: &[u8]) -> (r: String32)
        requires
            valid_utf8(kept@),
            kept@.len() < 32,
        ensures
            r@ == kept@ + spec_zeros((32 - kept@.len()) as nat),
    {
        let mut data = [0u8; 32];
        let mut i: usize = 0;
        proof {
            vstd::array::axiom_spec_array_fill_for_copy_type::<u8, 32>(0u8);
            vstd::array::array_len_matches_n(&data);
            assert(data@ =~= kept@.take(0) + spec_zeros(32));
        }
        while i < kept.len()
            invariant
                i <= kept@.len() < 32,
                data@ == kept@.take(i as int) + spec_zeros((32 - i) as nat),
            decreases kept@.len() - i,
        {
            let ghost old_data = data@;
            data[i] = kept[i];
            proof {
                assert(data@ =~= kept@.take(i + 1) + spec_zeros((32 - (i + 1)) as nat));
            }
            i = i + 1;
        }
        proof {
            assert(kept@.take(i as int) =~= kept@);
            lemma_string32_valid(kept@);
        }
        String32 { string_data: data }
    }

    /// Convert the string to a string32.
    ///
    /// Returns [`Error::String32SizeLimitExceeded`] if the string is longer than 31 bytes.
    pub fn from_str(str: &str) -> (r: RinghopperResult<String32>)
        ensures
            str.spec_bytes().len() < 32 ==> (r matches Ok(s) && s@ == str.spec_bytes() + spec_zeros((32 - str.spec_bytes().len()) as nat)),
            str.spec_bytes().len() >= 32 ==> r == Err::<String32, Error>(Error::String32SizeLimitExceeded),
    {
        let bytes = str.as_bytes();
        if bytes.len() >= 32 {
            return Err(Error::String32SizeLimitExceeded);
        }
        proof {
            vstd::utf8::encode_utf8_valid_utf8(str@);
        }
        Ok(String32::from_kept(bytes))
    }

    /// Convert an array of 32 bytes to String32.
    ///
    /// Invalid characters are replaced with `_`
    pub fn from_bytes_lossy(bytes: &[u8; 32]) -> (r: String32)
        ensures
            r@ == spec_string32_from_bytes(bytes@),
    {
        proof {
            vstd::array::array_len_matches_n(bytes);
            assert(bytes@.len() == 32);
            lemma_strlen(bytes@);
        }
        let len0 = strlen(bytes);
        let len = if len0 == 32 {
            31
        } else {
            len0
        };
        let prefix = vstd::slice::slice_subrange(bytes.as_slice(), 0, len);
        let (lossy, valid) = utf8_lossy_underscore(prefix);
        proof {
            assert(prefix@ =~= bytes@.take(len as int));
            lemma_lossy_valid(prefix@);
            lemma_lossy_len(prefix@);
            lemma_lossy_output(prefix@);
        }
        if valid {
            String32::from_kept(prefix)
        } else {
            String32::from_kept(lossy.as_slice())
        }
    }

    /// Get the string from this: the characters before the null terminator.
    pub fn as_str(&self) -> (r: &str)
        ensures
            r.spec_bytes() == self@.take(spec_strlen(self@)),
    {
        proof {
            use_type_invariant(self);
        }
        let len = self.strlen();
        let bytes = vstd::slice::slice_subrange(self.string_data.as_slice(), 0, len);
        proof {
            assert(bytes@ =~= self@.take(len as int));
        }
        match str_from_utf8(bytes) {
            Some(s) => s,
            None => "",
        }
    }

    /// Get the length of the string.
    fn strlen(&self) -> (r: usize)
        ensures
            r == spec_strlen(self@),
    {
        strlen(&self.string_data)
    }
}

impl Default for String32 {
    /// The empty string.
    fn default() -> (r: String32)
        ensures
            r@ == spec_zeros(32),
    {
        let empty: [u8; 0] = [];
        proof {
            assert(valid_utf8(empty@));
        }
        let r = String32::from_kept(empty.as_slice());
        proof {
            assert(empty@ + spec_zeros(32) =~= spec_zeros(32));
        }
        r
    }
}

impl SimpleTagData for String32 {
    open spec fn spec_simple_size() -> nat {
        32
    }

    open spec fn spec_read(big: bool, data: Seq<u8>, at: int, struct_end: int) -> RinghopperResult<String32> {
        match spec_fits(32, at, data.len() as int) {
            Ok(end) => Ok(choose|s: String32| s@ == spec_string32_from_bytes(data.subrange(at, end as int))),
            Err(e) => Err(e),
        }
    }

    open spec fn spec_encode(self, big: bool) -> RinghopperResult<Seq<u8>> {
        Ok(self@)
    }

    fn simple_size() -> (r: usize) {
        32
    }

    fn read<B: ByteOrder>(data: &[u8], at: usize, struct_end: usize) -> (r: RinghopperResult<String32>) {
        let end = fits(32, at, data.len())?;
        let mut bytes = [0u8; 32];
        let mut i: usize = 0;
        while i < 32
            invariant
                i <= 32,
                end == at + 32,
                end <= data@.len(),
                forall|j: int| 0 <= j < i ==> bytes@[j] == data@[at + j],
            decreases 32 - i,
        {
            bytes[i] = data[at + i];
            i = i + 1;
        }
        proof {
            assert(bytes@ =~= data@.subrange(at as int, end as int));
        }
        let s = String32::from_bytes_lossy(&bytes);
        proof {
            let x = spec_string32_from_bytes(data@.subrange(at as int, end as int));
            assert(exists|t: String32| t@ == x);
            let c = choose|t: String32| t@ == x;
            lemma_string32_view_injective(c, s);
        }
        Ok(s)
    }

    fn write<B: ByteOrder>(&self, data: &mut [u8], at: usize, struct_end: usize) -> (r: RinghopperResult<()>) {
        let mut i: usize = 0;
        while i < 32
            invariant
                i <= 32,
                at + 32 <= data.len(),
                data@.len() == old(data)@.len(),
                self@.len() == 32,
                data@ == spec_splice(old(data)@, at as int, self@.take(i as int)),
            decreases 32 - i,
        {
            let ghost before = data@;
            data[at + i] = self.string_data[i];
            proof {
                assert(data@ =~= spec_splice(old(data)@, at as int, self@.take(i + 1)));
            }
            i = i + 1;
        }
        proof {
            assert(self@.take(32) =~= self@);
        }
        Ok(())
    }
}

} // verus!

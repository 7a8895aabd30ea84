//! CRC32 (reflected, polynomial 0xEDB88320) as used by tag files and cache files.
//!
//! The value handed out is the running register: it is initialised to `0xFFFFFFFF` and is not inverted at the end.

use vstd::prelude::*;

verus! {

/// Reversed CRC32 polynomial.
pub const CRC32_POLYNOMIAL: u32 = 0xEDB88320;

/// One shift of the CRC register.
pub open spec fn spec_crc_step(c: u32) -> u32 {
    if c & 1 == 1 {
        (c >> 1) ^ CRC32_POLYNOMIAL
    } else {
        c >> 1
    }
}

/// `n` shifts of the CRC register.
pub open spec fn spec_crc_steps(c: u32, n: nat) -> u32
    decreases n,
{
    if n == 0 {
        c
    } else {
        spec_crc_step(spec_crc_steps(c, (n - 1) as nat))
    }
}

/// Feed one byte into the CRC register.
pub open spec fn spec_crc_byte(crc: u32, byte: u8) -> u32 {
    spec_crc_steps(crc ^ (byte as u32), 8)
}

/// Feed a sequence of bytes (first to last) into the CRC register.
pub open spec fn spec_crc_bytes(crc: u32, data: Seq<u8>) -> u32
    decreases data.len(),
{
    if data.len() == 0 {
        crc
    } else {
        spec_crc_byte(spec_crc_bytes(crc, data.drop_last()), data.last())
    }
}

/// Feeding two pieces of data one after the other is the same as feeding them joined.
pub proof fn lemma_crc_bytes_concat(crc: u32, a: Seq<u8>, b: Seq<u8>)
    ensures
        spec_crc_bytes(spec_crc_bytes(crc, a), b) == spec_crc_bytes(crc, a + b),
    decreases b.len(),
{
    if b.len() == 0 {
        assert(a + b =~= a);
    } else {
        lemma_crc_bytes_concat(crc, a, b.drop_last());
        assert((a + b).drop_last() =~= a + b.drop_last());
        assert((a + b).last() == b.last());
    }
}

fn crc_update_byte(crc: u32, byte: u8) -> (r: u32)
    ensures
        r == spec_crc_byte(crc, byte),
{
    let mut c: u32 = crc ^ (byte as u32);
    let mut k: usize = 0;
    while k < 8
        invariant
            k <= 8,
            c == spec_crc_steps(crc ^ (byte as u32), k as nat),
        decreases 8 - k,
    {
        if c & 1 == 1 {
            c = (c >> 1) ^ CRC32_POLYNOMIAL;
        } else {
            c = c >> 1;
        }
        k = k + 1;
    }
    c
}

/// Continue a CRC32 computation from `crc` over `data`.
pub fn crc32_with_init(crc: u32, data: &[u8]) -> (r: u32)
    ensures
        r == spec_crc_bytes(crc, data@),
{
    let mut c: u32 = crc;
    let mut i: usize = 0;
    while i < data.len()
        invariant
            i <= data@.len(),
            c == spec_crc_bytes(crc, data@.take(i as int)),
        decreases data@.len() - i,
    {
        proof {
            assert(data@.take(i + 1).drop_last() =~= data@.take(i as int));
        }
        c = crc_update_byte(c, data[i]);
        i = i + 1;
    }
    proof {
        assert(data@.take(i as int) =~= data@);
    }
    c
}

/// Compute the CRC32 register of `data`, starting from `0xFFFFFFFF`.
pub fn crc32(data: &[u8]) -> (r: u32)
    ensures
        r == spec_crc_bytes(0xFFFFFFFF, data@),
{
    crc32_with_init(0xFFFFFFFF, data)
}

/// Running CRC32 calculation.
pub struct CRC32 {
    crc: u32,
}

impl CRC32 {
    /// The register's current value.
    pub closed spec fn register(self) -> u32 {
        self.crc
    }

    /// Start a new CRC32 calculation.
    pub fn new() -> (r: Self)
        ensures
            r.register() == 0xFFFFFFFF,
    {
        CRC32 { crc: 0xFFFFFFFF }
    }

    /// Feed `data` into the calculation.
    pub fn update(&mut self, data: &[u8])
        ensures
            final(self).register() == spec_crc_bytes(old(self).register(), data@),
    {
        self.crc = crc32_with_init(self.crc, data);
    }

    /// Get the current CRC32.
    pub fn crc(&self) -> (r: u32)
        ensures
            r == self.register(),
    {
        self.crc
    }
}

/// Law: continuing the CRC of `a` over `b` gives the CRC of `a` followed by `b`.
pub proof fn law_crc32_split(a: Seq<u8>, b: Seq<u8>)
    ensures
        spec_crc_bytes(spec_crc_bytes(0xFFFFFFFF, a), b) == spec_crc_bytes(0xFFFFFFFF, a + b),
{
    lemma_crc_bytes_concat(0xFFFFFFFF, a, b);
}

} // verus!

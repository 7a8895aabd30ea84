//! Decompression of cache files whose data past the header is compressed.

use vstd::prelude::*;
use vstd::string::StringExecFns;
use crate::engine::EngineCompressionType;
use crate::error::{Error, RinghopperResult};

verus! {

/// Length of the cache file header, which is never compressed.
pub const CACHE_FILE_HEADER_LEN: usize = 0x800;

/// What inflating the zlib stream `compressed` into a zeroed buffer of `out_len` bytes gives: the buffer afterwards,
/// or the decompressor's error message.
pub uninterp spec fn spec_inflate(compressed: Seq<u8>, out_len: nat) -> Result<Seq<u8>, Seq<char>>;

/// Inflate the zlib stream `compressed` into `out` with `flate2::Decompress::decompress`, with a zlib header and
/// `FlushDecompress::Finish`, in a single call.
///
/// The buffer afterwards, or the error's message, is named by [`spec_inflate`]; the status of a call that succeeds
/// is not returned, and how many bytes were written is left to that name.
#[verifier::external_body]
fn inflate(compressed: &[u8], out: &mut [u8]) -> (r: Result<(), String>)
    requires
        forall|i: int| 0 <= i < old(out)@.len() ==> old(out)@[i] == 0,
    ensures
        final(out)@.len() == old(out)@.len(),
        match spec_inflate(compressed@, old(out)@.len()) {
            Ok(b) => r is Ok && final(out)@ == b,
            Err(m) => r matches Err(e) && e@ == m,
        },
{
    let mut decompressor = flate2::Decompress::new(true);
    match decompressor.decompress(compressed, out, flate2::FlushDecompress::Finish) {
        Ok(_) => Ok(()),
        Err(e) => Err(format!("{e}")),
    }
}

/// `e` is the map parse failure with the message `m`.
pub open spec fn spec_parse_failure_is(e: Error, m: Seq<char>) -> bool {
    e matches Error::MapParseFailure(s) && s@ == m
}

/// What decompressing a cache file gives, as a result of the bytes or the message of a map parse failure.
pub open spec fn spec_decompress_map_data(
    data: Seq<u8>,
    compression_padding: int,
    decompressed_size: int,
    compression: EngineCompressionType,
) -> Result<Seq<u8>, Seq<char>> {
    match compression {
        EngineCompressionType::Uncompressed => Ok(data),
        EngineCompressionType::Deflate => if compression_padding > data.len() {
            Err("decompression failed: bad padding size in header - larger than cache file"@)
        } else if data.len() - compression_padding < CACHE_FILE_HEADER_LEN {
            Err("decompression failed: bad padding size in header - larger than uncompressed data"@)
        } else {
            spec_decompression_result(
                data.take(CACHE_FILE_HEADER_LEN as int),
                spec_inflate(
                    data.subrange(CACHE_FILE_HEADER_LEN as int, data.len() - compression_padding),
                    (decompressed_size - CACHE_FILE_HEADER_LEN) as nat,
                ),
            )
        },
    }
}

/// The decompressed cache file from its header and what inflating the rest gave.
pub open spec fn spec_decompression_result(header: Seq<u8>, inflated: Result<Seq<u8>, Seq<char>>) -> Result<
    Seq<u8>,
    Seq<char>,
> {
    match inflated {
        Ok(b) => Ok(header + b),
        Err(m) => Err("decompression failed: flate2 error: "@ + m),
    }
}

/// Finish decompressing a cache file: its header followed by the inflated data, or a [`Error::MapParseFailure`]
/// with the decompressor's message.
pub fn decompression_result(header: Vec<u8>, inflated: Result<Vec<u8>, String>) -> (r: RinghopperResult<Vec<u8>>)
    ensures
        match spec_decompression_result(
            header@,
            match inflated {
                Ok(b) => Ok(b@),
                Err(m) => Err(m@),
            },
        ) {
            Ok(b) => r matches Ok(v) && v@ == b,
            Err(m) => r matches Err(e) && spec_parse_failure_is(e, m),
        },
{
    match inflated {
        Ok(mut b) => {
            let mut out = header;
            out.append(&mut b);
            Ok(out)
        },
        Err(m) => {
            let mut message = "decompression failed: flate2 error: ".to_owned();
            message.append(m.as_str());
            Err(Error::MapParseFailure(message))
        },
    }
}

/// Decompress the data of a cache file: the header is kept as it is and the rest, but for `compression_padding`
/// bytes at the end, is inflated into `decompressed_size` bytes in all.
///
/// Uncompressed data is returned as it is. Fails with [`Error::MapParseFailure`] where the padding is larger than the
/// data, where it leaves less than a header, or where the data does not inflate.
pub fn decompress_map_data(
    data: Vec<u8>,
    compression_padding: usize,
    decompressed_size: usize,
    compression: EngineCompressionType,
) -> (r: RinghopperResult<Vec<u8>>)
    requires
        compression == EngineCompressionType::Deflate && compression_padding <= data@.len() && data@.len()
            - compression_padding >= CACHE_FILE_HEADER_LEN ==> decompressed_size >= CACHE_FILE_HEADER_LEN,
    ensures
        match spec_decompress_map_data(data@, compression_padding as int, decompressed_size as int, compression) {
            Ok(b) => r matches Ok(v) && v@ == b,
            Err(m) => r matches Err(e) && spec_parse_failure_is(e, m),
        },
{
    if compression == EngineCompressionType::Uncompressed {
        return Ok(data);
    }
    if compression_padding > data.len() {
        return Err(
            Error::MapParseFailure(
                "decompression failed: bad padding size in header - larger than cache file".to_owned(),
            ),
        );
    }
    let compressed_end = data.len() - compression_padding;
    if compressed_end < CACHE_FILE_HEADER_LEN {
        return Err(
            Error::MapParseFailure(
                "decompression failed: bad padding size in header - larger than uncompressed data".to_owned(),
            ),
        );
    }
    let mut header: Vec<u8> = Vec::new();
    let mut i: usize = 0;
    while i < CACHE_FILE_HEADER_LEN
        invariant
            i <= CACHE_FILE_HEADER_LEN <= data@.len(),
            header@ == data@.take(i as int),
        decreases CACHE_FILE_HEADER_LEN - i,
    {
        header.push(data[i]);
        proof {
            assert(data@.take(i + 1) =~= data@.take(i as int).push(data@[i as int]));
        }
        i = i + 1;
    }
    let out_len = decompressed_size - CACHE_FILE_HEADER_LEN;
    let mut out: Vec<u8> = Vec::new();
    let mut k: usize = 0;
    while k < out_len
        invariant
            k <= out_len,
            out@.len() == k,
            forall|j: int| 0 <= j < k ==> out@[j] == 0,
        decreases out_len - k,
    {
        out.push(0);
        k = k + 1;
    }
    let mut compressed: Vec<u8> = Vec::new();
    let mut c: usize = CACHE_FILE_HEADER_LEN;
    while c < compressed_end
        invariant
            CACHE_FILE_HEADER_LEN <= c <= compressed_end <= data@.len(),
            compressed@ == data@.subrange(CACHE_FILE_HEADER_LEN as int, c as int),
        decreases compressed_end - c,
    {
        compressed.push(data[c]);
        proof {
            assert(data@.subrange(CACHE_FILE_HEADER_LEN as int, c + 1) =~= data@.subrange(
                CACHE_FILE_HEADER_LEN as int,
                c as int,
            ).push(data@[c as int]));
        }
        c = c + 1;
    }
    let outcome = inflate(compressed.as_slice(), out.as_mut_slice());
    let inflated = match outcome {
        Ok(()) => Ok(out),
        Err(m) => Err(m),
    };
    decompression_result(header, inflated)
}

} // verus!

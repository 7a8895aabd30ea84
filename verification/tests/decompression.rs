use std::io::Write;

use ringhopper::decompression::{decompress_map_data, decompression_result, CACHE_FILE_HEADER_LEN};
use ringhopper::engine::EngineCompressionType;
use ringhopper::error::Error;

fn compressed_map(payload: &[u8], padding: usize) -> Vec<u8> {
    let mut data: Vec<u8> = (0..CACHE_FILE_HEADER_LEN).map(|i| (i % 251) as u8).collect();
    let mut encoder = flate2::write::ZlibEncoder::new(Vec::new(), flate2::Compression::default());
    encoder.write_all(payload).unwrap();
    data.extend_from_slice(&encoder.finish().unwrap());
    data.extend(std::iter::repeat(0xAA).take(padding));
    data
}

#[test]
fn deflated_map_is_inflated_after_its_header() {
    let payload: Vec<u8> = (0..5000u32).map(|i| (i * 7 % 13) as u8).collect();
    let data = compressed_map(&payload, 16);
    let out = decompress_map_data(data.clone(), 16, CACHE_FILE_HEADER_LEN + payload.len(), EngineCompressionType::Deflate).unwrap();
    assert_eq!(&out[..CACHE_FILE_HEADER_LEN], &data[..CACHE_FILE_HEADER_LEN]);
    assert_eq!(&out[CACHE_FILE_HEADER_LEN..], payload.as_slice());
}

#[test]
fn uncompressed_map_is_returned_as_it_is() {
    let data = vec![1u8, 2, 3];
    assert_eq!(decompress_map_data(data.clone(), 100, 0, EngineCompressionType::Uncompressed).unwrap(), data);
}

#[test]
fn decompression_errors() {
    let data = compressed_map(&[1, 2, 3], 0);
    match decompress_map_data(data.clone(), data.len() + 1, 0x900, EngineCompressionType::Deflate) {
        Err(Error::MapParseFailure(m)) => assert_eq!(m, "decompression failed: bad padding size in header - larger than cache file"),
        _ => panic!("expected a padding failure"),
    }
    match decompress_map_data(data.clone(), data.len() - 0x7FF, 0x900, EngineCompressionType::Deflate) {
        Err(Error::MapParseFailure(m)) => assert_eq!(m, "decompression failed: bad padding size in header - larger than uncompressed data"),
        _ => panic!("expected a padding failure"),
    }
    let mut garbage = vec![0u8; CACHE_FILE_HEADER_LEN];
    garbage.extend_from_slice(&[0xFF; 64]);
    match decompress_map_data(garbage, 0, 0x900, EngineCompressionType::Deflate) {
        Err(Error::MapParseFailure(m)) => assert!(m.starts_with("decompression failed: flate2 error: ")),
        _ => panic!("expected a flate2 failure"),
    }
}

#[test]
fn decompression_result_joins_or_reports() {
    assert_eq!(decompression_result(vec![1, 2], Ok(vec![3])).unwrap(), vec![1, 2, 3]);
    match decompression_result(vec![1, 2], Err("bad".to_owned())) {
        Err(Error::MapParseFailure(m)) => assert_eq!(m, "decompression failed: flate2 error: bad"),
        _ => panic!("expected a failure"),
    }
}

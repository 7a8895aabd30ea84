use ringhopper::data::sound::swap_pcm16_endianness;
use ringhopper::error::Error;

#[test]
fn pcm16_samples_are_byte_swapped() {
    assert_eq!(swap_pcm16_endianness(&[1, 2, 3, 4]).unwrap(), vec![2, 1, 4, 3]);
    assert_eq!(swap_pcm16_endianness(&[]).unwrap(), Vec::<u8>::new());
    match swap_pcm16_endianness(&[1, 2, 3]) {
        Err(Error::InvalidTagData(m)) => assert_eq!(m, "Sound data is 16-bit PCM, but one or more permutations have an odd number of bytes"),
        _ => panic!("expected an error for odd data"),
    }
}

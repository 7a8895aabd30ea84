//! Sound sample data.

use vstd::prelude::*;
use vstd::string::StringExecFns;
use crate::error::{Error, RinghopperResult};

verus! {

/// 16-bit PCM samples with the two bytes of each sample swapped.
pub open spec fn spec_swap_pcm16(samples: Seq<u8>) -> Seq<u8> {
    Seq::new(samples.len(), |i: int| if i % 2 == 0 { samples[i + 1] } else { samples[i - 1] })
}

/// Swap the byte order of 16-bit PCM samples, as cache files and tag files store them in opposite orders.
///
/// Returns [`Error::InvalidTagData`] if the data holds an odd number of bytes.
pub fn swap_pcm16_endianness(samples: &[u8]) -> (r: RinghopperResult<Vec<u8>>)
    ensures
        samples@.len() % 2 == 0 ==> (r matches Ok(v) && v@ == spec_swap_pcm16(samples@)),
        samples@.len() % 2 == 1 ==> (r matches Err(Error::InvalidTagData(m))
            && m@ == "Sound data is 16-bit PCM, but one or more permutations have an odd number of bytes"@),
{
    if samples.len() % 2 == 1 {
        return Err(
            Error::InvalidTagData(
                "Sound data is 16-bit PCM, but one or more permutations have an odd number of bytes".to_owned(),
            ),
        );
    }
    let mut swapped: Vec<u8> = Vec::new();
    let mut i: usize = 0;
    while i < samples.len()
        invariant
            samples@.len() % 2 == 0,
            i % 2 == 0,
            i <= samples@.len(),
            swapped@ == spec_swap_pcm16(samples@).take(i as int),
        decreases samples@.len() - i,
    {
        swapped.push(samples[i + 1]);
        swapped.push(samples[i]);
        proof {
            assert(spec_swap_pcm16(samples@).take(i + 2) =~= spec_swap_pcm16(samples@).take(i as int).push(
                samples@[i + 1],
            ).push(samples@[i as int]));
        }
        i = i + 2;
    }
    proof {
        assert(spec_swap_pcm16(samples@).take(i as int) =~= spec_swap_pcm16(samples@));
    }
    Ok(swapped)
}

} // verus!

//! What the serial ports put on the line for a string.

use vstd::prelude::*;
use vstd::string::*;

verus! {

/// The data register words that transmit `bytes`: one word per byte,
/// holding the byte's value.
pub open spec fn data_words(bytes: Seq<u8>) -> Seq<u32> {
    bytes.map_values(|b: u8| b as u32)
}

/// The data register words for the UTF-8 bytes of `s`, in order.
pub fn words_for(s: &str) -> (words: Vec<u32>)
    ensures
        words@ == data_words(s.spec_bytes()),
{
    let bytes: Vec<u8> = s.as_bytes_vec();
    let mut words: Vec<u32> = Vec::new();
    let mut i: usize = 0;
    while i < bytes.len()
        invariant
            i <= bytes@.len(),
            bytes@ == s.spec_bytes(),
            words@ == data_words(bytes@.take(i as int)),
        decreases bytes@.len() - i,
    {
        words.push(bytes[i] as u32);
        assert(data_words(bytes@.take(i + 1)) =~= data_words(bytes@.take(i as int)).push(bytes[i as int] as u32));
        i = i + 1;
    }
    assert(bytes@.take(i as int) =~= bytes@);
    words
}

} // verus!

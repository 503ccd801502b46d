//! The USB-TTL console on USART1 (115200 baud, 8 data bits, no parity,
//! one stop bit).

use vstd::prelude::*;
use vstd::string::StringSliceAdditionalSpecFns;
use crate::serial::{data_words, words_for};

verus! {

/// The serial console. Text written to it goes out byte after byte.
pub struct USART1;

impl USART1 {
    /// Write `s` to the console: the words to put in the data register,
    /// one per byte of `s`, each once the transmit register is empty.
    pub fn write_str(&mut self, s: &str) -> (words: Vec<u32>)
        ensures
            words@ == data_words(s.spec_bytes()),
    {
        words_for(s)
    }
}

} // verus!

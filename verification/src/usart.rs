//! USART2 of the STM32F103 board, for sending messages.

use vstd::prelude::*;
use vstd::string::StringSliceAdditionalSpecFns;
use crate::serial::{data_words, words_for};

verus! {

/// The message line. Text written to it goes out byte after byte.
pub struct USART2;

impl USART2 {
    /// Write `s` to the line: the words to put in the data register, one
    /// per byte of `s`, each once the transmit register is empty.
    pub fn write_str(&mut self, s: &str) -> (words: Vec<u32>)
        ensures
            words@ == data_words(s.spec_bytes()),
    {
        words_for(s)
    }
}

} // verus!

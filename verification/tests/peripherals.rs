use bootloader::tf::{Time, CS, SPI1};
use bootloader::usart::USART2;
use bootloader::usb_ttl::USART1;

#[test]
fn usart1_sends_each_byte() {
    assert_eq!(USART1.write_str("hi\n"), vec![0x68, 0x69, 0x0A]);
    assert_eq!(USART1.write_str(""), Vec::<u32>::new());
}

#[test]
fn usart2_sends_utf8_bytes() {
    assert_eq!(USART2.write_str("é"), vec![0xC3, 0xA9]);
}

#[test]
fn spi1_read_keeps_low_byte() {
    assert!(matches!(SPI1.read(0x1234), Ok(0x34)));
    assert!(matches!(SPI1.read(0xFF), Ok(0xFF)));
}

#[test]
fn spi1_send_widens() {
    assert!(matches!(SPI1.send(0xAB), Ok(0xAB)));
}

#[test]
fn chip_select_words() {
    assert!(matches!(CS.set_low(), Ok(0x0010_0000)));
    assert!(matches!(CS.set_high(), Ok(0x0000_0010)));
}

#[test]
fn timestamp_of_files() {
    let t = Time.get_timestamp();
    assert_eq!(t.year_since_1970, 30);
    assert_eq!(t.zero_indexed_month, 0);
    assert_eq!(t.zero_indexed_day, 0);
    assert_eq!((t.hours, t.minutes, t.seconds), (1, 1, 1));
}

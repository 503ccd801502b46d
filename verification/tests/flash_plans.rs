use bootloader::flash::{erase, FlashOp, FLASH_KEY1, FLASH_KEY2};

#[test]
fn write_programs_each_byte_between_unlock_and_lock() {
    let ops = bootloader::flash::write(0x0802_0000, &[0xAA, 0x55, 0x01]);
    assert_eq!(
        ops,
        vec![
            FlashOp::WriteKey(0x4567_0123),
            FlashOp::WriteKey(0xCDEF_89AB),
            FlashOp::Program { address: 0x0802_0000, data: 0xAA },
            FlashOp::Program { address: 0x0802_0001, data: 0x55 },
            FlashOp::Program { address: 0x0802_0002, data: 0x01 },
            FlashOp::Lock,
        ]
    );
}

#[test]
fn write_of_nothing_only_unlocks_and_locks() {
    let ops = bootloader::flash::write(0x0802_0000, &[]);
    assert_eq!(ops, vec![FlashOp::WriteKey(FLASH_KEY1), FlashOp::WriteKey(FLASH_KEY2), FlashOp::Lock]);
}

#[test]
fn write_up_to_the_end_of_the_address_space() {
    let ops = bootloader::flash::write(usize::MAX - 2, &[1, 2]);
    assert_eq!(ops[2], FlashOp::Program { address: usize::MAX - 2, data: 1 });
    assert_eq!(ops[3], FlashOp::Program { address: usize::MAX - 1, data: 2 });
    assert_eq!(ops.len(), 5);
}

#[test]
fn erase_firmware_sectors() {
    let ops = erase(5, 11);
    let mut expected = vec![FlashOp::WriteKey(FLASH_KEY1), FlashOp::WriteKey(FLASH_KEY2)];
    for s in 5u8..=11 {
        expected.push(FlashOp::EraseSector(s));
    }
    expected.push(FlashOp::Lock);
    assert_eq!(ops, expected);
}

#[test]
fn erase_single_sector() {
    assert_eq!(
        erase(3, 3),
        vec![FlashOp::WriteKey(FLASH_KEY1), FlashOp::WriteKey(FLASH_KEY2), FlashOp::EraseSector(3), FlashOp::Lock]
    );
}

#[test]
fn erase_empty_range() {
    assert_eq!(erase(7, 6), vec![FlashOp::WriteKey(FLASH_KEY1), FlashOp::WriteKey(FLASH_KEY2), FlashOp::Lock]);
}

#[test]
fn erase_up_to_the_last_sector_number() {
    let ops = erase(254, 255);
    assert_eq!(ops.len(), 5);
    assert_eq!(ops[2], FlashOp::EraseSector(254));
    assert_eq!(ops[3], FlashOp::EraseSector(255));
}

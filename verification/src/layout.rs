//! Memory layout of the board: the flash array of the STM32F407 and the
//! partition between the bootloader and the firmware it boots.

use vstd::prelude::*;

verus! {

/// First address of the on-chip flash.
pub const FLASH_BASE: usize = 0x0800_0000;

/// One past the last address of the on-chip flash (1 MiB).
pub const FLASH_END: usize = 0x0810_0000;

/// Where the firmware starts: its initial stack pointer is stored here and
/// its reset vector right after it.
pub const OS_START_ADDRESS: usize = 0x0802_0000;

/// Address of the firmware's initial main stack pointer.
pub const MSP_ADDRESS: usize = 0x0802_0000;

/// Address of the firmware's reset vector.
pub const VECTOR_ADDRESS: usize = 0x0802_0004;

/// First flash sector of the firmware partition.
pub const FIRMWARE_FIRST_SECTOR: u8 = 5;

/// Last flash sector of the firmware partition.
pub const FIRMWARE_LAST_SECTOR: u8 = 11;

/// Number of sectors of the flash array.
pub const SECTOR_COUNT: u8 = 12;

/// Size in bytes of the firmware partition (896 KiB).
pub const FIRMWARE_SIZE: usize = 0x000E_0000;

/// Whether `address` lies in the flash array.
pub open spec fn in_flash(address: int) -> bool {
    FLASH_BASE <= address < FLASH_END
}

/// Whether `address` lies in the bootloader's own partition.
pub open spec fn in_bootloader(address: int) -> bool {
    FLASH_BASE <= address < OS_START_ADDRESS
}

/// Whether `address` lies in the firmware partition.
pub open spec fn in_firmware(address: int) -> bool {
    OS_START_ADDRESS <= address < FLASH_END
}

/// Start address of sector `n`: four sectors of 16 KiB, one of 64 KiB,
/// then sectors of 128 KiB.
pub open spec fn sector_start(n: int) -> int {
    if n < 4 {
        FLASH_BASE + n * 0x4000
    } else if n == 4 {
        FLASH_BASE + 0x1_0000
    } else {
        FLASH_BASE + 0x2_0000 + (n - 5) * 0x2_0000
    }
}

/// Size in bytes of sector `n`.
pub open spec fn sector_size(n: int) -> int {
    if n < 4 {
        0x4000
    } else if n == 4 {
        0x1_0000
    } else {
        0x2_0000
    }
}

/// Whether `address` lies in sector `n` of the flash array.
pub open spec fn in_sector(n: int, address: int) -> bool {
    &&& 0 <= n < SECTOR_COUNT
    &&& sector_start(n) <= address < sector_start(n) + sector_size(n)
}

} // verus!

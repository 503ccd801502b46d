//! Programming and erasing the on-chip flash.
//!
//! The flash controller is driven by a short protocol: the two unlock keys
//! are written to the key register, then bytes are programmed or sectors
//! erased one at a time, and the controller is locked again. The functions
//! here decide that protocol and hand it out as a list of [`FlashOp`]s,
//! which the program on the board performs on the registers in order.

use vstd::prelude::*;

verus! {

/// First key of the unlock sequence of the flash key register.
pub const FLASH_KEY1: u32 = 0x4567_0123;

/// Second key of the unlock sequence of the flash key register.
pub const FLASH_KEY2: u32 = 0xCDEF_89AB;

/// One operation on the flash controller. Programming, erasing and locking
/// first wait until the controller is no longer busy; writing a key does
/// not wait.
#[derive(Clone, Copy, Debug, PartialEq, Eq, Structural)]
pub enum FlashOp {
    /// Write a key to the key register (part of the unlock sequence).
    WriteKey(u32),
    /// Enter programming mode and store one byte at `address`.
    Program { address: usize, data: u8 },
    /// Select sector erase for the given sector number and start it.
    EraseSector(u8),
    /// Set the lock bit, so that the flash can no longer be changed.
    Lock,
}

/// The unlock sequence: both keys, in order.
pub open spec fn unlock_ops() -> Seq<FlashOp> {
    seq![FlashOp::WriteKey(FLASH_KEY1), FlashOp::WriteKey(FLASH_KEY2)]
}

/// Programming `data` byte after byte from `address` on.
pub open spec fn program_ops(address: int, data: Seq<u8>) -> Seq<FlashOp> {
    Seq::new(data.len(), |i: int| FlashOp::Program { address: (address + i) as usize, data: data[i] })
}

/// What [`write`] performs: unlock, program every byte, lock.
pub open spec fn write_plan(address: int, data: Seq<u8>) -> Seq<FlashOp> {
    unlock_ops() + program_ops(address, data) + seq![FlashOp::Lock]
}

/// Erasing every sector from `start` to `end`, both included, in order.
pub open spec fn sector_ops(start: u8, end: u8) -> Seq<FlashOp> {
    if start <= end {
        Seq::new((end - start + 1) as nat, |i: int| FlashOp::EraseSector((start + i) as u8))
    } else {
        Seq::empty()
    }
}

/// What [`erase`] performs: unlock, erase the sectors, lock.
pub open spec fn erase_plan(start: u8, end: u8) -> Seq<FlashOp> {
    unlock_ops() + sector_ops(start, end) + seq![FlashOp::Lock]
}

/// Unlock the flash program/erase controller, so that flash can be written.
fn unlock_fpec(ops: &mut Vec<FlashOp>)
    ensures
        final(ops)@ == old(ops)@ + unlock_ops(),
{
    ops.push(FlashOp::WriteKey(FLASH_KEY1));
    ops.push(FlashOp::WriteKey(FLASH_KEY2));
    assert(ops@ =~= old(ops)@ + unlock_ops());
}

/// Lock the flash, so that it can no longer be changed.
fn lock(ops: &mut Vec<FlashOp>)
    ensures
        final(ops)@ == old(ops)@.push(FlashOp::Lock),
{
    ops.push(FlashOp::Lock);
}

/// Program one byte of flash.
fn write_byte(ops: &mut Vec<FlashOp>, address: usize, data: u8)
    ensures
        final(ops)@ == old(ops)@.push(FlashOp::Program { address, data }),
{
    ops.push(FlashOp::Program { address, data });
}

/// Erase the firmware flash: every sector from `start_sector` to
/// `end_sector`, both included, between an unlock and a lock.
pub fn erase(start_sector: u8, end_sector: u8) -> (ops: Vec<FlashOp>)
    ensures
        ops@ == erase_plan(start_sector, end_sector),
{
    let mut ops: Vec<FlashOp> = Vec::new();
    unlock_fpec(&mut ops);
    if start_sector <= end_sector {
        let mut sector: u8 = start_sector;
        loop
            invariant_except_break
                start_sector <= sector <= end_sector,
                ops@ == unlock_ops() + sector_ops(start_sector, end_sector).take(
                    sector - start_sector,
                ),
            ensures
                ops@ == unlock_ops() + sector_ops(start_sector, end_sector),
            decreases end_sector - sector,
        {
            ops.push(FlashOp::EraseSector(sector));
            assert(ops@ =~= unlock_ops() + sector_ops(start_sector, end_sector).take(
                sector - start_sector + 1,
            ));
            if sector == end_sector {
                assert(sector_ops(start_sector, end_sector).take(end_sector - start_sector + 1)
                    =~= sector_ops(start_sector, end_sector));
                break;
            }
            sector = sector + 1;
        }
    } else {
        assert(unlock_ops() + sector_ops(start_sector, end_sector) =~= unlock_ops());
    }
    lock(&mut ops);
    ops
}

/// Write `buf` to the firmware flash, byte after byte from `address` on,
/// between an unlock and a lock.
pub fn write(address: usize, buf: &[u8]) -> (ops: Vec<FlashOp>)
    requires
        address + buf@.len() <= usize::MAX,
    ensures
        ops@ == write_plan(address as int, buf@),
{
    let mut ops: Vec<FlashOp> = Vec::new();
    unlock_fpec(&mut ops);
    let mut address: usize = address;
    let ghost start = address as int;
    let mut i: usize = 0;
    while i < buf.len()
        invariant
            i <= buf@.len(),
            address == start + i,
            start + buf@.len() <= usize::MAX,
            ops@ == unlock_ops() + program_ops(start, buf@.take(i as int)),
        decreases buf@.len() - i,
    {
        write_byte(&mut ops, address, buf[i]);
        assert(program_ops(start, buf@.take(i + 1)) =~= program_ops(start, buf@.take(i as int)).push(
            FlashOp::Program { address, data: buf[i as int] },
        ));
        assert(ops@ =~= unlock_ops() + program_ops(start, buf@.take(i + 1)));
        address = address + 1;
        i = i + 1;
    }
    assert(buf@.take(i as int) =~= buf@);
    lock(&mut ops);
    ops
}

} // verus!

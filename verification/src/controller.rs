//! A model of the flash program/erase controller, and what the operation
//! lists of [`crate::flash`] do to the flash array.
//!
//! The controller starts locked. Writing the two keys in order unlocks it;
//! a wrong key, or a key written while unlocked, is a bus error that leaves
//! the controller unusable until reset. Programming a byte can only clear
//! bits (the stored byte becomes the bitwise and of the old and the new
//! byte), erasing a sector sets all its bytes to `0xFF`, and both are
//! refused while the controller is locked or outside the flash array.

use vstd::prelude::*;
use crate::flash::{
    erase_plan, program_ops, sector_ops, unlock_ops, write_plan, FlashOp, FLASH_KEY1, FLASH_KEY2,
};
use crate::layout::{
    in_bootloader, in_firmware, in_flash, in_sector, FLASH_BASE, FLASH_END, FIRMWARE_FIRST_SECTOR,
    FIRMWARE_LAST_SECTOR, FIRMWARE_SIZE, OS_START_ADDRESS, SECTOR_COUNT,
};

verus! {

/// Where the controller stands in its unlock sequence.
pub enum LockState {
    Locked,
    FirstKeyWritten,
    Unlocked,
}

/// The controller and the content of the flash array.
pub struct FlashState {
    pub lock: LockState,
    /// Whether a programming or erase operation is still running (the busy
    /// flag of the status register).
    pub busy: bool,
    pub memory: spec_fn(int) -> u8,
}

/// The state after one operation, or `None` where the controller faults.
/// Writing a key does not wait; programming, erasing and locking first
/// wait until the controller is no longer busy. Programming and erasing
/// then start an operation, which keeps the controller busy until the next
/// wait.
pub open spec fn apply_op(s: FlashState, op: FlashOp) -> Option<FlashState> {
    match op {
        FlashOp::WriteKey(key) => match s.lock {
            LockState::Locked => if key == FLASH_KEY1 {
                Some(FlashState { lock: LockState::FirstKeyWritten, busy: s.busy, memory: s.memory })
            } else {
                None
            },
            LockState::FirstKeyWritten => if key == FLASH_KEY2 {
                Some(FlashState { lock: LockState::Unlocked, busy: s.busy, memory: s.memory })
            } else {
                None
            },
            LockState::Unlocked => None,
        },
        FlashOp::Program { address, data } => if s.lock is Unlocked && in_flash(address as int) {
            Some(
                FlashState {
                    lock: LockState::Unlocked,
                    busy: true,
                    memory: |a: int|
                        if a == address as int {
                            (s.memory)(a) & data
                        } else {
                            (s.memory)(a)
                        },
                },
            )
        } else {
            None
        },
        FlashOp::EraseSector(n) => if s.lock is Unlocked && n < SECTOR_COUNT {
            Some(
                FlashState {
                    lock: LockState::Unlocked,
                    busy: true,
                    memory: |a: int|
                        if in_sector(n as int, a) {
                            0xFFu8
                        } else {
                            (s.memory)(a)
                        },
                },
            )
        } else {
            None
        },
        FlashOp::Lock => Some(FlashState { lock: LockState::Locked, busy: false, memory: s.memory }),
    }
}

/// The state after a list of operations performed in order, or `None`
/// where one of them faults.
pub open spec fn apply_ops(s: FlashState, ops: Seq<FlashOp>) -> Option<FlashState>
    decreases ops.len(),
{
    if ops.len() == 0 {
        Some(s)
    } else {
        match apply_op(s, ops[0]) {
            Some(t) => apply_ops(t, ops.drop_first()),
            None => None,
        }
    }
}

/// Performing two lists one after the other is performing their
/// concatenation.
pub proof fn lemma_apply_ops_append(s: FlashState, a: Seq<FlashOp>, b: Seq<FlashOp>)
    ensures
        apply_ops(s, a + b) == (match apply_ops(s, a) {
            Some(t) => apply_ops(t, b),
            None => None,
        }),
    decreases a.len(),
{
    if a.len() == 0 {
        assert(a + b =~= b);
    } else {
        assert((a + b).drop_first() =~= a.drop_first() + b);
        match apply_op(s, a[0]) {
            Some(t) => lemma_apply_ops_append(t, a.drop_first(), b),
            None => {},
        }
    }
}

proof fn lemma_apply_ops_one(s: FlashState, op: FlashOp)
    ensures
        apply_ops(s, seq![op]) == apply_op(s, op),
{
    reveal_with_fuel(apply_ops, 2);
    assert(seq![op].drop_first() =~= Seq::<FlashOp>::empty());
}

/// The unlock sequence unlocks a locked controller and faults otherwise.
proof fn lemma_unlock(s: FlashState)
    ensures
        s.lock is Locked ==> apply_ops(s, unlock_ops()) == Some(
            FlashState { lock: LockState::Unlocked, busy: s.busy, memory: s.memory },
        ),
        !(s.lock is Locked) ==> apply_ops(s, unlock_ops()) is None,
{
    reveal_with_fuel(apply_ops, 3);
    let ops = unlock_ops();
    assert(ops.drop_first() =~= seq![FlashOp::WriteKey(FLASH_KEY2)]);
    assert(ops.drop_first().drop_first() =~= Seq::<FlashOp>::empty());
}

/// The bytes that programming `data` from `address` on leaves in `memory`.
pub open spec fn programmed(memory: spec_fn(int) -> u8, address: int, data: Seq<u8>) -> spec_fn(int) -> u8 {
    |a: int|
        if address <= a < address + data.len() {
            memory(a) & data[a - address]
        } else {
            memory(a)
        }
}

/// Whether the bytes from `address` to `address + len` all lie in flash.
pub open spec fn range_in_flash(address: int, len: int) -> bool {
    len == 0 || (FLASH_BASE <= address && address + len <= FLASH_END)
}

proof fn lemma_program_ops(s: FlashState, address: int, data: Seq<u8>)
    requires
        s.lock is Unlocked,
        0 <= address,
        address + data.len() <= usize::MAX,
    ensures
        range_in_flash(address, data.len() as int) ==> apply_ops(s, program_ops(address, data))
            == Some(FlashState { lock: LockState::Unlocked, busy: s.busy || data.len() > 0, memory: programmed(s.memory, address, data) }),
        !range_in_flash(address, data.len() as int) ==> apply_ops(s, program_ops(address, data)) is None,
    decreases data.len(),
{
    let n = data.len();
    if n == 0 {
        assert(program_ops(address, data) =~= Seq::<FlashOp>::empty());
        assert(programmed(s.memory, address, data) =~= s.memory);
    } else {
        let init = data.drop_last();
        let last = data.last();
        let op = FlashOp::Program { address: (address + n - 1) as usize, data: last };
        assert(program_ops(address, data) =~= program_ops(address, init) + seq![op]);
        lemma_apply_ops_append(s, program_ops(address, init), seq![op]);
        lemma_program_ops(s, address, init);
        if range_in_flash(address, n as int) {
            assert(range_in_flash(address, init.len() as int));
            let t = FlashState { lock: LockState::Unlocked, busy: s.busy || init.len() > 0, memory: programmed(s.memory, address, init) };
            lemma_apply_ops_one(t, op);
            assert(programmed(s.memory, address, data) =~= (|a: int|
                if a == address + n - 1 {
                    (t.memory)(a) & last
                } else {
                    (t.memory)(a)
                }));
        } else {
            if range_in_flash(address, init.len() as int) {
                let t = FlashState { lock: LockState::Unlocked, busy: s.busy || init.len() > 0, memory: programmed(s.memory, address, init) };
                lemma_apply_ops_one(t, op);
            }
        }
    }
}

/// Whether `address` lies in one of the sectors from `start` to `end`.
pub open spec fn in_sectors(start: int, end: int, address: int) -> bool {
    exists|n: int| start <= n <= end && #[trigger] in_sector(n, address)
}

/// The bytes that erasing the sectors from `start` to `end` leaves in `memory`.
pub open spec fn erased(memory: spec_fn(int) -> u8, start: int, end: int) -> spec_fn(int) -> u8 {
    |a: int|
        if in_sectors(start, end, a) {
            0xFFu8
        } else {
            memory(a)
        }
}

proof fn lemma_sector_ops(s: FlashState, start: u8, end: u8)
    requires
        s.lock is Unlocked,
        start <= end,
    ensures
        end < SECTOR_COUNT ==> apply_ops(s, sector_ops(start, end)) == Some(
            FlashState { lock: LockState::Unlocked, busy: true, memory: erased(s.memory, start as int, end as int) },
        ),
        end >= SECTOR_COUNT ==> apply_ops(s, sector_ops(start, end)) is None,
    decreases end - start,
{
    let op = FlashOp::EraseSector(end);
    if start == end {
        assert(sector_ops(start, end) =~= seq![op]);
        lemma_apply_ops_one(s, op);
        assert(erased(s.memory, start as int, end as int) =~= (|a: int|
            if in_sector(end as int, a) {
                0xFFu8
            } else {
                (s.memory)(a)
            }));
    } else {
        let prev = (end - 1) as u8;
        assert(sector_ops(start, end) =~= sector_ops(start, prev) + seq![op]);
        lemma_apply_ops_append(s, sector_ops(start, prev), seq![op]);
        lemma_sector_ops(s, start, prev);
        if prev < SECTOR_COUNT {
            let t = FlashState { lock: LockState::Unlocked, busy: true, memory: erased(s.memory, start as int, prev as int) };
            lemma_apply_ops_one(t, op);
            if end < SECTOR_COUNT {
                assert forall|a: int| #[trigger] erased(s.memory, start as int, end as int)(a) == (if in_sector(end as int, a) {
                    0xFFu8
                } else {
                    (t.memory)(a)
                }) by {
                    if in_sectors(start as int, end as int, a) && !in_sector(end as int, a) {
                        let n = choose|n: int| start <= n <= end && #[trigger] in_sector(n, a);
                        assert(in_sectors(start as int, prev as int, a));
                    }
                }
                assert(erased(s.memory, start as int, end as int) =~= (|a: int|
                    if in_sector(end as int, a) {
                        0xFFu8
                    } else {
                        (t.memory)(a)
                    }));
            }
        }
    }
}

/// Writing `data` from `address` on, starting from a locked controller,
/// succeeds exactly when all the bytes lie in flash; the bytes written are
/// programmed, every other byte keeps its value, and afterwards the
/// controller is locked again with no operation running. From a
/// controller that is not locked, the unlock sequence faults.
pub proof fn lemma_write_plan(s: FlashState, address: usize, data: Seq<u8>)
    requires
        address + data.len() <= usize::MAX,
    ensures
        s.lock is Locked && range_in_flash(address as int, data.len() as int) ==> apply_ops(
            s,
            write_plan(address as int, data),
        ) == Some(FlashState { lock: LockState::Locked, busy: false, memory: programmed(s.memory, address as int, data) }),
        s.lock is Locked && !range_in_flash(address as int, data.len() as int) ==> apply_ops(
            s,
            write_plan(address as int, data),
        ) is None,
        !(s.lock is Locked) ==> apply_ops(s, write_plan(address as int, data)) is None,
{
    let prog = program_ops(address as int, data);
    lemma_apply_ops_append(s, unlock_ops() + prog, seq![FlashOp::Lock]);
    lemma_apply_ops_append(s, unlock_ops(), prog);
    lemma_unlock(s);
    if s.lock is Locked {
        let u = FlashState { lock: LockState::Unlocked, busy: s.busy, memory: s.memory };
        lemma_program_ops(u, address as int, data);
        if range_in_flash(address as int, data.len() as int) {
            let t = FlashState { lock: LockState::Unlocked, busy: s.busy || data.len() > 0, memory: programmed(s.memory, address as int, data) };
            lemma_apply_ops_one(t, FlashOp::Lock);
        }
    }
}

/// Erasing the sectors from `start` to `end`, starting from a locked
/// controller, succeeds exactly when every one of them exists; their bytes
/// become `0xFF`, every other byte keeps its value, and afterwards the
/// controller is locked again with no operation running. An empty range
/// only unlocks and locks.
pub proof fn lemma_erase_plan(s: FlashState, start: u8, end: u8)
    ensures
        s.lock is Locked && (start > end || end < SECTOR_COUNT) ==> apply_ops(s, erase_plan(start, end))
            == Some(FlashState { lock: LockState::Locked, busy: false, memory: erased(s.memory, start as int, end as int) }),
        s.lock is Locked && start <= end && end >= SECTOR_COUNT ==> apply_ops(s, erase_plan(start, end)) is None,
        !(s.lock is Locked) ==> apply_ops(s, erase_plan(start, end)) is None,
{
    let secs = sector_ops(start, end);
    lemma_apply_ops_append(s, unlock_ops() + secs, seq![FlashOp::Lock]);
    lemma_apply_ops_append(s, unlock_ops(), secs);
    lemma_unlock(s);
    if s.lock is Locked {
        let u = FlashState { lock: LockState::Unlocked, busy: s.busy, memory: s.memory };
        if start <= end {
            lemma_sector_ops(u, start, end);
        } else {
            assert(secs =~= Seq::<FlashOp>::empty());
            assert(erased(s.memory, start as int, end as int) =~= s.memory);
        }
        if start > end || end < SECTOR_COUNT {
            let t = FlashState { lock: LockState::Unlocked, busy: if start <= end { true } else { s.busy }, memory: erased(s.memory, start as int, end as int) };
            lemma_apply_ops_one(t, FlashOp::Lock);
        }
    }
}

/// The partitions of the flash: the firmware sectors cover exactly the
/// firmware partition (from the start of the firmware to the end of
/// flash), the sectors before them cover exactly the bootloader
/// partition, and the two partitions split the flash array between them.
pub proof fn lemma_partition_sectors(address: int)
    ensures
        in_sectors(FIRMWARE_FIRST_SECTOR as int, FIRMWARE_LAST_SECTOR as int, address) <==> in_firmware(
            address,
        ),
        in_sectors(0, FIRMWARE_FIRST_SECTOR - 1, address) <==> in_bootloader(address),
        in_flash(address) <==> (in_bootloader(address) || in_firmware(address)),
        !(in_bootloader(address) && in_firmware(address)),
        OS_START_ADDRESS + FIRMWARE_SIZE == FLASH_END,
{
    if in_firmware(address) {
        let n = 5 + (address - OS_START_ADDRESS) / 0x2_0000;
        assert(in_sector(n, address));
    }
    if in_bootloader(address) {
        if address < FLASH_BASE + 0x1_0000 {
            let n = (address - FLASH_BASE) / 0x4000;
            assert(in_sector(n, address));
        } else {
            assert(in_sector(4, address));
        }
    }
}

/// Programming a byte over an erased byte stores it unchanged.
pub proof fn lemma_program_erased(data: u8)
    ensures
        0xFFu8 & data == data,
{
    assert(0xFFu8 & data == data) by (bit_vector);
}

/// The operations of writing `blocks` one after the other, each right
/// behind the previous one, from `address` on.
pub open spec fn write_plans(address: int, blocks: Seq<Seq<u8>>) -> Seq<FlashOp>
    decreases blocks.len(),
{
    if blocks.len() == 0 {
        Seq::empty()
    } else {
        write_plan(address, blocks[0]) + write_plans(address + blocks[0].len(), blocks.drop_first())
    }
}

/// The operations of a firmware upgrade: erase the firmware sectors, then
/// write the blocks of the image one behind the other from the start of
/// the firmware partition on.
pub open spec fn upgrade_plan(blocks: Seq<Seq<u8>>) -> Seq<FlashOp> {
    erase_plan(FIRMWARE_FIRST_SECTOR, FIRMWARE_LAST_SECTOR) + write_plans(OS_START_ADDRESS as int, blocks)
}

/// The flash content after a firmware upgrade with `image`: the image at
/// the start of the firmware partition, erased bytes behind it up to the
/// end of flash, and everything outside the partition as it was.
pub open spec fn flashed(memory: spec_fn(int) -> u8, image: Seq<u8>) -> spec_fn(int) -> u8 {
    |a: int|
        if in_firmware(a) {
            if a < OS_START_ADDRESS + image.len() {
                image[a - OS_START_ADDRESS]
            } else {
                0xFFu8
            }
        } else {
            memory(a)
        }
}

proof fn lemma_write_plans(u: FlashState, address: int, blocks: Seq<Seq<u8>>)
    requires
        u.lock is Locked,
        !u.busy,
        OS_START_ADDRESS <= address,
        address + blocks.flatten().len() <= FLASH_END,
        forall|a: int| address <= a < FLASH_END ==> #[trigger] (u.memory)(a) == 0xFFu8,
    ensures
        apply_ops(u, write_plans(address, blocks)) == Some(
            FlashState {
                lock: LockState::Locked,
                busy: false,
                memory: |a: int|
                    if address <= a < address + blocks.flatten().len() {
                        blocks.flatten()[a - address]
                    } else {
                        (u.memory)(a)
                    },
            },
        ),
    decreases blocks.len(),
{
    let flat = blocks.flatten();
    if blocks.len() == 0 {
        assert(write_plans(address, blocks) =~= Seq::<FlashOp>::empty());
        let target = |a: int|
            if address <= a < address + flat.len() {
                flat[a - address]
            } else {
                (u.memory)(a)
            };
        assert(target =~= u.memory);
    } else {
        let b = blocks[0];
        let rest = blocks.drop_first();
        assert(flat =~= b + rest.flatten());
        let next = address + b.len();
        lemma_apply_ops_append(u, write_plan(address, b), write_plans(next, rest));
        lemma_write_plan(u, address as usize, b);
        let m1 = programmed(u.memory, address, b);
        let t = FlashState { lock: LockState::Locked, busy: false, memory: m1 };
        assert forall|a: int| next <= a < FLASH_END implies #[trigger] (t.memory)(a) == 0xFFu8 by {}
        lemma_write_plans(t, next, rest);
        let target = |a: int|
            if address <= a < address + flat.len() {
                flat[a - address]
            } else {
                (u.memory)(a)
            };
        let got = |a: int|
            if next <= a < next + rest.flatten().len() {
                rest.flatten()[a - next]
            } else {
                (t.memory)(a)
            };
        assert forall|a: int| #[trigger] got(a) == target(a) by {
            if address <= a < next {
                lemma_program_erased(b[a - address]);
            }
        }
        assert(got =~= target);
    }
}

/// A firmware upgrade, starting from a locked controller with an image
/// that fits in the firmware partition, succeeds: afterwards the firmware
/// partition holds the image from its start on and erased bytes behind
/// it, the bootloader and everything else outside the partition are
/// unchanged, and the controller is locked and idle.
pub proof fn lemma_upgrade_plan(s: FlashState, blocks: Seq<Seq<u8>>)
    requires
        s.lock is Locked,
        blocks.flatten().len() <= FIRMWARE_SIZE,
    ensures
        apply_ops(s, upgrade_plan(blocks)) == Some(
            FlashState { lock: LockState::Locked, busy: false, memory: flashed(s.memory, blocks.flatten()) },
        ),
{
    let first = FIRMWARE_FIRST_SECTOR;
    let last = FIRMWARE_LAST_SECTOR;
    lemma_apply_ops_append(s, erase_plan(first, last), write_plans(OS_START_ADDRESS as int, blocks));
    lemma_erase_plan(s, first, last);
    let m = erased(s.memory, first as int, last as int);
    let u = FlashState { lock: LockState::Locked, busy: false, memory: m };
    assert forall|a: int| #[trigger] m(a) == (if in_firmware(a) { 0xFFu8 } else { (s.memory)(a) }) by {
        lemma_partition_sectors(a);
    }
    assert forall|a: int| OS_START_ADDRESS <= a < FLASH_END implies #[trigger] (u.memory)(a) == 0xFFu8 by {
        assert(m(a) == (if in_firmware(a) { 0xFFu8 } else { (s.memory)(a) }));
    }
    lemma_write_plans(u, OS_START_ADDRESS as int, blocks);
    let flat = blocks.flatten();
    let got = |a: int|
        if OS_START_ADDRESS <= a < OS_START_ADDRESS + flat.len() {
            flat[a - OS_START_ADDRESS]
        } else {
            (u.memory)(a)
        };
    assert forall|a: int| #[trigger] got(a) == flashed(s.memory, flat)(a) by {
        assert(m(a) == (if in_firmware(a) { 0xFFu8 } else { (s.memory)(a) }));
    }
    assert(got =~= flashed(s.memory, flat));
}

} // verus!

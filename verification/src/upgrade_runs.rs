//! Whole runs of the firmware check: what a sequence of answers leads to,
//! and what the bootloader promises of every step and of every run.

use vstd::prelude::*;
use crate::controller::{
    apply_op, apply_ops, flashed, lemma_partition_sectors, lemma_upgrade_plan, upgrade_plan, write_plans,
    FlashState, LockState,
};
use crate::flash::{erase_plan, program_ops, sector_ops, unlock_ops, write_plan, FlashOp};
use crate::layout::{
    in_bootloader, in_sector, FIRMWARE_FIRST_SECTOR, FIRMWARE_LAST_SECTOR, FIRMWARE_SIZE, OS_START_ADDRESS,
};
use crate::upgrade::{next, step_defined, upgrade_begin, upgrade_end, CommandView, EventView, Message, Phase};

verus! {

/// The phase reached and the commands issued when the answers `events`
/// come in one after the other from `phase` on.
pub open spec fn run(phase: Phase, events: Seq<EventView>) -> (Phase, Seq<CommandView>)
    decreases events.len(),
{
    if events.len() == 0 {
        (phase, Seq::empty())
    } else {
        let (p1, c1) = next(phase, events[0]);
        let (p2, c2) = run(p1, events.drop_first());
        (p2, c1 + c2)
    }
}

/// Whether every answer of `events` can be taken in the phase where it
/// comes in.
pub open spec fn run_defined(phase: Phase, events: Seq<EventView>) -> bool
    decreases events.len(),
{
    events.len() == 0 || (step_defined(phase, events[0]) && run_defined(
        next(phase, events[0]).0,
        events.drop_first(),
    ))
}

/// All the flash operations of a list of commands, in order.
pub open spec fn flash_ops(cmds: Seq<CommandView>) -> Seq<FlashOp>
    decreases cmds.len(),
{
    if cmds.len() == 0 {
        Seq::empty()
    } else {
        (match cmds[0] {
            CommandView::Flash(ops) => ops,
            _ => Seq::empty(),
        }) + flash_ops(cmds.drop_first())
    }
}

/// The phase that writes the next block to `address`.
pub open spec fn programming(address: usize, auto: bool) -> Phase {
    Phase::Programming { address, auto }
}

/// The answers that deliver `blocks` one after the other.
pub open spec fn block_events(blocks: Seq<Seq<u8>>) -> Seq<EventView> {
    blocks.map_values(|b: Seq<u8>| EventView::Block(b))
}

/// A card with `firmware.bin` and an `install` file whose image is `blocks`.
pub open spec fn install_file_run(blocks: Seq<Seq<u8>>) -> Seq<EventView> {
    seq![EventView::Start, EventView::Card(true), EventView::Firmware(true), EventView::InstallFile(true)]
        + block_events(blocks) + seq![EventView::EndOfFile, EventView::Deleted]
}

/// A card with `firmware.bin` and no `install` file, and the key pressed
/// during the countdown; the image is `blocks`.
pub open spec fn key_press_run(blocks: Seq<Seq<u8>>) -> Seq<EventView> {
    seq![
        EventView::Start,
        EventView::Card(true),
        EventView::Firmware(true),
        EventView::InstallFile(false),
        EventView::Countdown(true),
    ] + block_events(blocks) + seq![EventView::EndOfFile]
}

proof fn lemma_run_append(phase: Phase, a: Seq<EventView>, b: Seq<EventView>)
    ensures
        run(phase, a + b) == (run(run(phase, a).0, b).0, run(phase, a).1 + run(run(phase, a).0, b).1),
        run_defined(phase, a + b) == (run_defined(phase, a) && run_defined(run(phase, a).0, b)),
    decreases a.len(),
{
    if a.len() == 0 {
        assert(a + b =~= b);
        assert(Seq::<CommandView>::empty() + run(phase, b).1 =~= run(phase, b).1);
    } else {
        assert((a + b).drop_first() =~= a.drop_first() + b);
        assert((a + b)[0] == a[0]);
        let p1 = next(phase, a[0]).0;
        lemma_run_append(p1, a.drop_first(), b);
        let c1 = next(phase, a[0]).1;
        let r = run(p1, a.drop_first());
        assert(c1 + (r.1 + run(r.0, b).1) =~= (c1 + r.1) + run(r.0, b).1);
    }
}

proof fn lemma_flash_ops_append(a: Seq<CommandView>, b: Seq<CommandView>)
    ensures
        flash_ops(a + b) == flash_ops(a) + flash_ops(b),
    decreases a.len(),
{
    if a.len() == 0 {
        assert(a + b =~= b);
        assert(Seq::<FlashOp>::empty() + flash_ops(b) =~= flash_ops(b));
    } else {
        assert((a + b).drop_first() =~= a.drop_first() + b);
        assert((a + b)[0] == a[0]);
        lemma_flash_ops_append(a.drop_first(), b);
        let h = match a[0] {
            CommandView::Flash(ops) => ops,
            _ => Seq::empty(),
        };
        assert(h + (flash_ops(a.drop_first()) + flash_ops(b)) =~= (h + flash_ops(a.drop_first())) + flash_ops(b));
    }
}

proof fn lemma_flash_ops_one(c: CommandView)
    ensures
        flash_ops(seq![c]) == (match c {
            CommandView::Flash(ops) => ops,
            _ => Seq::empty(),
        }),
{
    reveal_with_fuel(flash_ops, 2);
    assert(seq![c].drop_first() =~= Seq::<CommandView>::empty());
    let h = match c {
        CommandView::Flash(ops) => ops,
        _ => Seq::<FlashOp>::empty(),
    };
    assert(h + Seq::<FlashOp>::empty() =~= h);
}

proof fn lemma_run_blocks(address: usize, auto: bool, blocks: Seq<Seq<u8>>)
    requires
        address + blocks.flatten().len() <= usize::MAX,
    ensures
        run(programming(address, auto), block_events(blocks)).0 == programming(
            (address + blocks.flatten().len()) as usize,
            auto,
        ),
        flash_ops(run(programming(address, auto), block_events(blocks)).1) == write_plans(
            address as int,
            blocks,
        ),
        run_defined(programming(address, auto), block_events(blocks)),
    decreases blocks.len(),
{
    let phase = Phase::Programming { address, auto };
    let events = block_events(blocks);
    if blocks.len() == 0 {
        assert(flash_ops(Seq::<CommandView>::empty()) =~= Seq::<FlashOp>::empty());
    } else {
        let b = blocks[0];
        let rest = blocks.drop_first();
        assert(blocks.flatten() =~= b + rest.flatten());
        assert(events[0] == EventView::Block(b));
        assert(events.drop_first() =~= block_events(rest));
        let next_address = (address + b.len()) as usize;
        lemma_run_blocks(next_address, auto, rest);
        let c1 = next(phase, events[0]).1;
        let r = run(Phase::Programming { address: next_address, auto }, block_events(rest));
        lemma_flash_ops_append(c1, r.1);
        assert(c1 == seq![CommandView::Flash(crate::flash::write_plan(address as int, b)), CommandView::ReadBlock]);
        assert(c1 =~= seq![CommandView::Flash(crate::flash::write_plan(address as int, b))] + seq![CommandView::ReadBlock]);
        lemma_flash_ops_append(seq![CommandView::Flash(crate::flash::write_plan(address as int, b))], seq![CommandView::ReadBlock]);
        lemma_flash_ops_one(CommandView::Flash(crate::flash::write_plan(address as int, b)));
        lemma_flash_ops_one(CommandView::ReadBlock);
        assert(crate::flash::write_plan(address as int, b) + Seq::<FlashOp>::empty() =~= crate::flash::write_plan(address as int, b));
        assert(flash_ops(c1) == crate::flash::write_plan(address as int, b));
        assert(next_address as int == address as int + b.len());
        assert(write_plans(address as int, blocks) == crate::flash::write_plan(address as int, b) + write_plans(next_address as int, rest));
        assert(run(phase, events).1 == c1 + r.1);
    }
}

proof fn lemma_flash_ops_none(cmds: Seq<CommandView>)
    requires
        forall|i: int| 0 <= i < cmds.len() ==> !(#[trigger] cmds[i] is Flash),
    ensures
        flash_ops(cmds) == Seq::<FlashOp>::empty(),
    decreases cmds.len(),
{
    if cmds.len() > 0 {
        assert forall|i: int| 0 <= i < cmds.drop_first().len() implies !(#[trigger] cmds.drop_first()[i] is Flash) by {
            assert(cmds.drop_first()[i] == cmds[i + 1]);
        }
        lemma_flash_ops_none(cmds.drop_first());
        assert(!(cmds[0] is Flash));
        assert(Seq::<FlashOp>::empty() + Seq::<FlashOp>::empty() =~= Seq::<FlashOp>::empty());
    }
}

/// The flash operations of the first part of an upgrade are the erasing
/// of the firmware sectors.
proof fn lemma_flash_ops_upgrade_begin(head: Seq<CommandView>)
    requires
        forall|i: int| 0 <= i < head.len() ==> !(#[trigger] head[i] is Flash),
    ensures
        flash_ops(head + upgrade_begin()) == erase_plan(FIRMWARE_FIRST_SECTOR, FIRMWARE_LAST_SECTOR),
{
    let erase_cmd = CommandView::Flash(erase_plan(FIRMWARE_FIRST_SECTOR, FIRMWARE_LAST_SECTOR));
    let a = head + upgrade_begin().take(4);
    let c = upgrade_begin().skip(5);
    assert(head + upgrade_begin() =~= a + (seq![erase_cmd] + c));
    assert forall|i: int| 0 <= i < a.len() implies !(#[trigger] a[i] is Flash) by {
        if i >= head.len() {
            assert(a[i] == upgrade_begin()[i - head.len()]);
        }
    }
    assert forall|i: int| 0 <= i < c.len() implies !(#[trigger] c[i] is Flash) by {
        assert(c[i] == upgrade_begin()[i + 5]);
    }
    lemma_flash_ops_none(a);
    lemma_flash_ops_none(c);
    lemma_flash_ops_append(a, seq![erase_cmd] + c);
    lemma_flash_ops_append(seq![erase_cmd], c);
    lemma_flash_ops_one(erase_cmd);
    assert(Seq::<FlashOp>::empty() + (erase_plan(FIRMWARE_FIRST_SECTOR, FIRMWARE_LAST_SECTOR)
        + Seq::<FlashOp>::empty()) =~= erase_plan(FIRMWARE_FIRST_SECTOR, FIRMWARE_LAST_SECTOR));
}

/// Upgrade by `install` file, the central promise of the bootloader: with
/// an `install` file and an image that fits in the firmware partition,
/// the check erases the firmware sectors and writes the image from the
/// start of the firmware partition on, block after block, deletes the
/// `install` file only after that, and finishes. Carried out on a locked
/// flash controller, its flash operations leave the image at the start
/// of the firmware partition, erased bytes behind it, the bootloader
/// untouched, and the controller locked and idle.
#[verifier::spinoff_prover]
pub proof fn lemma_install_file_upgrade(s: FlashState, blocks: Seq<Seq<u8>>)
    requires
        s.lock is Locked,
        blocks.flatten().len() <= FIRMWARE_SIZE,
    ensures
        run_defined(Phase::Start, install_file_run(blocks)),
        run(Phase::Start, install_file_run(blocks)).0 == Phase::Finished,
        flash_ops(run(Phase::Start, install_file_run(blocks)).1) == upgrade_plan(blocks),
        run(Phase::Start, install_file_run(blocks)).1.last() == CommandView::Finish,
        run(Phase::Start, install_file_run(blocks)).1.drop_last().last() == CommandView::DeleteInstallFile,
        apply_ops(s, flash_ops(run(Phase::Start, install_file_run(blocks)).1)) == Some(
            FlashState { lock: LockState::Locked, busy: false, memory: flashed(s.memory, blocks.flatten()) },
        ),
{
    let pre = seq![EventView::Start, EventView::Card(true), EventView::Firmware(true), EventView::InstallFile(true)];
    let mid = block_events(blocks);
    let post = seq![EventView::EndOfFile, EventView::Deleted];
    assert(install_file_run(blocks) =~= pre + (mid + post));
    reveal_with_fuel(run, 5);
    reveal_with_fuel(run_defined, 5);
    assert(pre.drop_first().drop_first().drop_first().drop_first() =~= Seq::<EventView>::empty());
    let start = Phase::Programming { address: OS_START_ADDRESS, auto: true };
    let head = seq![CommandView::InitCard] + (seq![CommandView::LoadFirmware] + (seq![CommandView::CheckInstallFile]
        + ((seq![CommandView::Log(Message::AutoUpgrade)] + upgrade_begin()) + Seq::<CommandView>::empty())));
    assert(run(Phase::Start, pre) == (start, head));
    assert(run_defined(Phase::Start, pre));
    let total = blocks.flatten().len();
    lemma_run_blocks(OS_START_ADDRESS, true, blocks);
    let after = Phase::Programming { address: (OS_START_ADDRESS + total) as usize, auto: true };
    let tail_cmds = (upgrade_end() + seq![
        CommandView::Log(Message::DeleteInstall),
        CommandView::Log(Message::Blank),
        CommandView::DeleteInstallFile,
    ]) + (seq![CommandView::Finish] + Seq::<CommandView>::empty());
    assert(post.drop_first().drop_first() =~= Seq::<EventView>::empty());
    assert(run(after, post) == (Phase::Finished, tail_cmds));
    assert(run_defined(after, post));
    lemma_run_append(Phase::Start, pre, mid + post);
    lemma_run_append(start, mid, post);
    let mid_cmds = run(start, mid).1;
    let head2 = seq![CommandView::InitCard, CommandView::LoadFirmware, CommandView::CheckInstallFile,
        CommandView::Log(Message::AutoUpgrade)];
    assert(head =~= head2 + upgrade_begin());
    assert forall|i: int| 0 <= i < head2.len() implies !(#[trigger] head2[i] is Flash) by {}
    lemma_flash_ops_upgrade_begin(head2);
    assert forall|i: int| 0 <= i < tail_cmds.len() implies !(#[trigger] tail_cmds[i] is Flash) by {
        if i < 2 {
            assert(tail_cmds[i] == upgrade_end()[i]);
        }
    }
    lemma_flash_ops_none(tail_cmds);
    lemma_flash_ops_append(head, mid_cmds + tail_cmds);
    lemma_flash_ops_append(mid_cmds, tail_cmds);
    let all = head + (mid_cmds + tail_cmds);
    assert(run(Phase::Start, install_file_run(blocks)).1 == all);
    assert(flash_ops(all) =~= upgrade_plan(blocks));
    assert(all.last() == tail_cmds.last());
    assert(all.drop_last().last() == tail_cmds.drop_last().last());
    lemma_upgrade_plan(s, blocks);
}

/// Upgrade by key: with `firmware.bin`, no `install` file, the key
/// pressed during the countdown and an image that fits in the firmware
/// partition, the check erases the firmware sectors, writes the image
/// from the start of the firmware partition on and finishes, without
/// deleting anything. Carried out on a locked flash controller, its flash
/// operations leave the image at the start of the firmware partition,
/// erased bytes behind it, the bootloader untouched, and the controller
/// locked and idle.
#[verifier::spinoff_prover]
#[verifier::rlimit(40)]
pub proof fn lemma_key_press_upgrade(s: FlashState, blocks: Seq<Seq<u8>>)
    requires
        s.lock is Locked,
        blocks.flatten().len() <= FIRMWARE_SIZE,
    ensures
        run_defined(Phase::Start, key_press_run(blocks)),
        run(Phase::Start, key_press_run(blocks)).0 == Phase::Finished,
        flash_ops(run(Phase::Start, key_press_run(blocks)).1) == upgrade_plan(blocks),
        run(Phase::Start, key_press_run(blocks)).1.last() == CommandView::Finish,
        !run(Phase::Start, key_press_run(blocks)).1.contains(CommandView::DeleteInstallFile),
        apply_ops(s, flash_ops(run(Phase::Start, key_press_run(blocks)).1)) == Some(
            FlashState { lock: LockState::Locked, busy: false, memory: flashed(s.memory, blocks.flatten()) },
        ),
{
    let pre = seq![
        EventView::Start,
        EventView::Card(true),
        EventView::Firmware(true),
        EventView::InstallFile(false),
        EventView::Countdown(true),
    ];
    let mid = block_events(blocks);
    let post = seq![EventView::EndOfFile];
    assert(key_press_run(blocks) =~= pre + (mid + post));
    reveal_with_fuel(run, 6);
    reveal_with_fuel(run_defined, 6);
    assert(pre.drop_first().drop_first().drop_first().drop_first().drop_first() =~= Seq::<EventView>::empty());
    let start = Phase::Programming { address: OS_START_ADDRESS, auto: false };
    let countdown = seq![
        CommandView::Log(Message::FoundFirmware),
        CommandView::Log(Message::BootCountdown),
        CommandView::Log(Message::PressKey),
        CommandView::Log(Message::Blank),
        CommandView::EnableTimer,
        CommandView::EnableButtonInterrupt,
        CommandView::AwaitCountdown,
    ];
    let head = seq![CommandView::InitCard] + (seq![CommandView::LoadFirmware] + (seq![CommandView::CheckInstallFile]
        + (countdown + (upgrade_begin() + Seq::<CommandView>::empty()))));
    assert(run(Phase::Start, pre) == (start, head));
    assert(run_defined(Phase::Start, pre));
    let total = blocks.flatten().len();
    lemma_run_blocks(OS_START_ADDRESS, false, blocks);
    let after = Phase::Programming { address: (OS_START_ADDRESS + total) as usize, auto: false };
    let tail_cmds = (upgrade_end() + seq![CommandView::Finish]) + Seq::<CommandView>::empty();
    assert(post.drop_first() =~= Seq::<EventView>::empty());
    assert(run(after, post) == (Phase::Finished, tail_cmds));
    assert(run_defined(after, post));
    lemma_run_append(Phase::Start, pre, mid + post);
    lemma_run_append(start, mid, post);
    let mid_cmds = run(start, mid).1;
    let head2 = seq![CommandView::InitCard, CommandView::LoadFirmware, CommandView::CheckInstallFile] + countdown;
    assert(head =~= head2 + upgrade_begin());
    assert forall|i: int| 0 <= i < head2.len() implies !(#[trigger] head2[i] is Flash) by {
        if i >= 3 {
            assert(head2[i] == countdown[i - 3]);
        }
    }
    lemma_flash_ops_upgrade_begin(head2);
    assert forall|i: int| 0 <= i < tail_cmds.len() implies !(#[trigger] tail_cmds[i] is Flash) by {
        if i < 2 {
            assert(tail_cmds[i] == upgrade_end()[i]);
        }
    }
    lemma_flash_ops_none(tail_cmds);
    lemma_flash_ops_append(head, mid_cmds + tail_cmds);
    lemma_flash_ops_append(mid_cmds, tail_cmds);
    let all = head + (mid_cmds + tail_cmds);
    assert(run(Phase::Start, key_press_run(blocks)).1 == all);
    assert(flash_ops(all) =~= upgrade_plan(blocks));
    assert(all.last() == tail_cmds.last());
    lemma_run_blocks_no_delete(OS_START_ADDRESS, false, blocks);
    assert(!all.contains(CommandView::DeleteInstallFile)) by {
        if all.contains(CommandView::DeleteInstallFile) {
            let i = choose|i: int| 0 <= i < all.len() && all[i] == CommandView::DeleteInstallFile;
            if i < head.len() {
                assert(head[i] == all[i]);
                if i >= head2.len() {
                    assert(head[i] == upgrade_begin()[i - head2.len()]);
                }
            } else if i < head.len() + mid_cmds.len() {
                assert(mid_cmds[i - head.len()] == all[i]);
            } else {
                assert(tail_cmds[i - head.len() - mid_cmds.len()] == all[i]);
                if i - head.len() - mid_cmds.len() < 2 {
                    assert(tail_cmds[i - head.len() - mid_cmds.len()] == upgrade_end()[i - head.len() - mid_cmds.len()]);
                }
            }
        }
    }
    lemma_upgrade_plan(s, blocks);
}

proof fn lemma_run_blocks_no_delete(address: usize, auto: bool, blocks: Seq<Seq<u8>>)
    ensures
        !run(programming(address, auto), block_events(blocks)).1.contains(CommandView::DeleteInstallFile),
    decreases blocks.len(),
{
    let phase = Phase::Programming { address, auto };
    let events = block_events(blocks);
    if blocks.len() > 0 {
        let b = blocks[0];
        let rest = blocks.drop_first();
        assert(events[0] == EventView::Block(b));
        assert(events.drop_first() =~= block_events(rest));
        let next_address = (address + b.len()) as usize;
        lemma_run_blocks_no_delete(next_address, auto, rest);
        let c1 = next(phase, events[0]).1;
        let r = run(Phase::Programming { address: next_address, auto }, block_events(rest));
        let all = c1 + r.1;
        if all.contains(CommandView::DeleteInstallFile) {
            let i = choose|i: int| 0 <= i < all.len() && all[i] == CommandView::DeleteInstallFile;
            if i >= c1.len() {
                assert(r.1[i - c1.len()] == all[i]);
            }
        }
    }
}

/// No upgrade without card, image, `install` file or key: when the card
/// cannot be initialised, when there is no `firmware.bin`, or when there
/// is no `install` file and the key is not pressed during the countdown,
/// the check finishes without any flash operation, so that the flash
/// stays as it was.
pub proof fn lemma_no_upgrade(s: FlashState)
    ensures
        ({
            let r = run(Phase::Start, seq![EventView::Start, EventView::Card(false)]);
            r.0 == Phase::Finished && r.1.last() == CommandView::Finish && flash_ops(r.1) == Seq::<FlashOp>::empty()
        }),
        ({
            let r = run(Phase::Start, seq![EventView::Start, EventView::Card(true), EventView::Firmware(false)]);
            r.0 == Phase::Finished && r.1.last() == CommandView::Finish && flash_ops(r.1) == Seq::<FlashOp>::empty()
        }),
        ({
            let r = run(
                Phase::Start,
                seq![
                    EventView::Start,
                    EventView::Card(true),
                    EventView::Firmware(true),
                    EventView::InstallFile(false),
                    EventView::Countdown(false),
                ],
            );
            r.0 == Phase::Finished && r.1.last() == CommandView::Finish && flash_ops(r.1) == Seq::<FlashOp>::empty()
        }),
        apply_ops(s, Seq::<FlashOp>::empty()) == Some(s),
{
    reveal_with_fuel(run, 6);
    let e1 = seq![EventView::Start, EventView::Card(false)];
    assert(e1.drop_first().drop_first() =~= Seq::<EventView>::empty());
    let r1 = run(Phase::Start, e1);
    assert forall|i: int| 0 <= i < r1.1.len() implies !(#[trigger] r1.1[i] is Flash) by {}
    lemma_flash_ops_none(r1.1);
    let e2 = seq![EventView::Start, EventView::Card(true), EventView::Firmware(false)];
    assert(e2.drop_first().drop_first().drop_first() =~= Seq::<EventView>::empty());
    let r2 = run(Phase::Start, e2);
    assert forall|i: int| 0 <= i < r2.1.len() implies !(#[trigger] r2.1[i] is Flash) by {}
    lemma_flash_ops_none(r2.1);
    let e3 = seq![
        EventView::Start,
        EventView::Card(true),
        EventView::Firmware(true),
        EventView::InstallFile(false),
        EventView::Countdown(false),
    ];
    assert(e3.drop_first().drop_first().drop_first().drop_first().drop_first() =~= Seq::<EventView>::empty());
    let r3 = run(Phase::Start, e3);
    assert forall|i: int| 0 <= i < r3.1.len() implies !(#[trigger] r3.1[i] is Flash) by {}
    lemma_flash_ops_none(r3.1);
}

/// Whether `event` answers what `phase` waits for.
pub open spec fn answers(phase: Phase, event: EventView) -> bool {
    match (phase, event) {
        (Phase::Start, EventView::Start) => true,
        (Phase::AwaitCard, EventView::Card(_)) => true,
        (Phase::AwaitFirmware, EventView::Firmware(_)) => true,
        (Phase::AwaitInstallCheck, EventView::InstallFile(_)) => true,
        (Phase::AwaitCountdown, EventView::Countdown(_)) => true,
        (Phase::Programming { .. }, EventView::Block(_)) => true,
        (Phase::Programming { .. }, EventView::EndOfFile) => true,
        (Phase::AwaitDelete, EventView::Deleted) => true,
        _ => false,
    }
}

/// The request whose answer `phase` waits for (`Finish` once finished).
pub open spec fn prompt(phase: Phase) -> Option<CommandView> {
    match phase {
        Phase::Start => None,
        Phase::AwaitCard => Some(CommandView::InitCard),
        Phase::AwaitFirmware => Some(CommandView::LoadFirmware),
        Phase::AwaitInstallCheck => Some(CommandView::CheckInstallFile),
        Phase::AwaitCountdown => Some(CommandView::AwaitCountdown),
        Phase::Programming { .. } => Some(CommandView::ReadBlock),
        Phase::AwaitDelete => Some(CommandView::DeleteInstallFile),
        Phase::Finished => Some(CommandView::Finish),
    }
}

/// Whether a command is a request, or the end of the check.
pub open spec fn is_request(c: CommandView) -> bool {
    ||| c is InitCard
    ||| c is LoadFirmware
    ||| c is CheckInstallFile
    ||| c is AwaitCountdown
    ||| c is ReadBlock
    ||| c is DeleteInstallFile
    ||| c is Finish
}

/// Every step keeps to the request and answer protocol: an event that
/// does not answer what the phase waits for changes nothing and asks for
/// nothing; an answer yields commands of which exactly the last is a
/// request, the one whose answer the new phase waits for. Once finished,
/// the check stays finished.
pub proof fn lemma_step_protocol(phase: Phase, event: EventView)
    ensures
        !answers(phase, event) ==> next(phase, event) == (phase, Seq::<CommandView>::empty()),
        answers(phase, event) ==> {
            let (p2, cmds) = next(phase, event);
            &&& cmds.len() > 0
            &&& prompt(p2) == Some(cmds.last())
            &&& forall|i: int| 0 <= i < cmds.len() - 1 ==> !is_request(#[trigger] cmds[i])
        },
        phase is Finished ==> next(phase, event).0 is Finished,
{
    if answers(phase, event) {
        let (p2, cmds) = next(phase, event);
        assert forall|i: int| 0 <= i < cmds.len() - 1 implies !is_request(#[trigger] cmds[i]) by {
            if phase is AwaitInstallCheck && event == EventView::InstallFile(true) {
                if i >= 1 {
                    assert(cmds[i] == upgrade_begin()[i - 1]);
                }
            }
            if phase is AwaitCountdown && event == EventView::Countdown(true) {
                assert(cmds[i] == upgrade_begin()[i]);
            }
            if phase is Programming && event is EndOfFile {
                if i < 2 {
                    assert(cmds[i] == upgrade_end()[i]);
                }
            }
        }
    }
}

/// Upgrades happen only when asked for: a step issues flash operations
/// only when it takes a block of the image while programming, or when it
/// starts an upgrade because the `install` file exists or the key was
/// pressed during the countdown. Programming is entered only that way,
/// and then the step erases the firmware sectors before anything is
/// written; it remembers whether the `install` file asked for it.
pub proof fn lemma_step_upgrade_on_request(phase: Phase, event: EventView)
    ensures
        ({
            let (p2, cmds) = next(phase, event);
            (exists|i: int| 0 <= i < cmds.len() && #[trigger] cmds[i] is Flash) ==> {
                ||| (phase is Programming && event is Block)
                ||| (phase is AwaitInstallCheck && event == EventView::InstallFile(true))
                ||| (phase is AwaitCountdown && event == EventView::Countdown(true))
            }
        }),
        ({
            let (p2, cmds) = next(phase, event);
            p2 is Programming && !(phase is Programming) ==> {
                &&& cmds.contains(CommandView::Flash(erase_plan(FIRMWARE_FIRST_SECTOR, FIRMWARE_LAST_SECTOR)))
                &&& p2 == Phase::Programming { address: OS_START_ADDRESS, auto: p2->auto }
                &&& (p2->auto ==> phase is AwaitInstallCheck && event == EventView::InstallFile(true))
                &&& (!p2->auto ==> phase is AwaitCountdown && event == EventView::Countdown(true))
            }
        }),
        ({
            let (p2, cmds) = next(phase, event);
            phase is Programming && p2 is Programming ==> p2->auto == phase->auto
        }),
{
    let (p2, cmds) = next(phase, event);
    if exists|i: int| 0 <= i < cmds.len() && #[trigger] cmds[i] is Flash {
        let i = choose|i: int| 0 <= i < cmds.len() && #[trigger] cmds[i] is Flash;
        if phase is Programming && event is EndOfFile {
            if i < 2 {
                assert(cmds[i] == upgrade_end()[i]);
            }
        }
    }
    if p2 is Programming && !(phase is Programming) {
        let e = CommandView::Flash(erase_plan(FIRMWARE_FIRST_SECTOR, FIRMWARE_LAST_SECTOR));
        if phase is AwaitInstallCheck {
            assert(cmds[5] == e);
        } else {
            assert(cmds[4] == e);
        }
    }
}

/// The `install` file is deleted only after a whole image has been
/// written in an upgrade that the `install` file asked for: the request
/// to delete it comes only when such an upgrade reaches the end of the
/// image.
pub proof fn lemma_step_delete_after_upgrade(phase: Phase, event: EventView)
    ensures
        next(phase, event).1.contains(CommandView::DeleteInstallFile) ==> {
            &&& phase is Programming
            &&& phase->auto
            &&& event is EndOfFile
        },
{
    let (p2, cmds) = next(phase, event);
    if cmds.contains(CommandView::DeleteInstallFile) {
        let i = choose|i: int| 0 <= i < cmds.len() && cmds[i] == CommandView::DeleteInstallFile;
        if phase is AwaitInstallCheck && event == EventView::InstallFile(true) {
            if i >= 1 {
                assert(cmds[i] == upgrade_begin()[i - 1]);
            }
        }
        if phase is AwaitCountdown && event == EventView::Countdown(true) {
            assert(cmds[i] == upgrade_begin()[i]);
        }
        if phase is Programming && event is EndOfFile && !phase->auto {
            if i < 2 {
                assert(cmds[i] == upgrade_end()[i]);
            }
        }
    }
}

/// Whether an operation leaves the bootloader partition alone: it erases
/// one of the firmware sectors, programs an address from the start of the
/// firmware on, or does not touch the flash array at all.
pub open spec fn stays_in_firmware(op: FlashOp) -> bool {
    match op {
        FlashOp::EraseSector(n) => FIRMWARE_FIRST_SECTOR <= n <= FIRMWARE_LAST_SECTOR,
        FlashOp::Program { address, .. } => OS_START_ADDRESS <= address,
        _ => true,
    }
}

/// Whether every operation of `ops` leaves the bootloader partition alone.
pub open spec fn all_stay_in_firmware(ops: Seq<FlashOp>) -> bool {
    forall|i: int| 0 <= i < ops.len() ==> stays_in_firmware(#[trigger] ops[i])
}

spec fn command_stays(c: CommandView) -> bool {
    match c {
        CommandView::Flash(ops) => all_stay_in_firmware(ops),
        _ => true,
    }
}

spec fn commands_stay(cmds: Seq<CommandView>) -> bool {
    forall|i: int| 0 <= i < cmds.len() ==> command_stays(#[trigger] cmds[i])
}

spec fn phase_in_firmware(phase: Phase) -> bool {
    match phase {
        Phase::Programming { address, .. } => OS_START_ADDRESS <= address,
        _ => true,
    }
}

proof fn lemma_flash_ops_stay(cmds: Seq<CommandView>)
    requires
        commands_stay(cmds),
    ensures
        all_stay_in_firmware(flash_ops(cmds)),
    decreases cmds.len(),
{
    if cmds.len() > 0 {
        let rest = cmds.drop_first();
        assert forall|i: int| 0 <= i < rest.len() implies command_stays(#[trigger] rest[i]) by {
            assert(rest[i] == cmds[i + 1]);
        }
        lemma_flash_ops_stay(rest);
        assert(command_stays(cmds[0]));
        let h = match cmds[0] {
            CommandView::Flash(ops) => ops,
            _ => Seq::<FlashOp>::empty(),
        };
        let all = h + flash_ops(rest);
        assert forall|i: int| 0 <= i < all.len() implies stays_in_firmware(#[trigger] all[i]) by {
            if i >= h.len() {
                assert(all[i] == flash_ops(rest)[i - h.len()]);
            }
        }
    }
}

proof fn lemma_erase_firmware_stays()
    ensures
        all_stay_in_firmware(erase_plan(FIRMWARE_FIRST_SECTOR, FIRMWARE_LAST_SECTOR)),
{
    let ops = erase_plan(FIRMWARE_FIRST_SECTOR, FIRMWARE_LAST_SECTOR);
    let secs = sector_ops(FIRMWARE_FIRST_SECTOR, FIRMWARE_LAST_SECTOR);
    assert forall|i: int| 0 <= i < ops.len() implies stays_in_firmware(#[trigger] ops[i]) by {
        if 2 <= i < 2 + secs.len() {
            assert(ops[i] == secs[i - 2]);
        }
    }
}

proof fn lemma_write_stays(address: usize, data: Seq<u8>)
    requires
        OS_START_ADDRESS <= address,
        address + data.len() <= usize::MAX,
    ensures
        all_stay_in_firmware(write_plan(address as int, data)),
{
    let ops = write_plan(address as int, data);
    let prog = program_ops(address as int, data);
    assert forall|i: int| 0 <= i < ops.len() implies stays_in_firmware(#[trigger] ops[i]) by {
        if 2 <= i < 2 + prog.len() {
            assert(ops[i] == prog[i - 2]);
        }
    }
}

proof fn lemma_step_stays(phase: Phase, event: EventView)
    requires
        phase_in_firmware(phase),
        step_defined(phase, event),
    ensures
        phase_in_firmware(next(phase, event).0),
        commands_stay(next(phase, event).1),
{
    let (p2, cmds) = next(phase, event);
    lemma_erase_firmware_stays();
    if let Phase::Programming { address, auto } = phase {
        if let EventView::Block(data) = event {
            lemma_write_stays(address, data);
        }
    }
    assert forall|i: int| 0 <= i < cmds.len() implies command_stays(#[trigger] cmds[i]) by {
        if phase is AwaitInstallCheck && event == EventView::InstallFile(true) {
            if i >= 1 {
                assert(cmds[i] == upgrade_begin()[i - 1]);
            }
        }
        if phase is AwaitCountdown && event == EventView::Countdown(true) {
            assert(cmds[i] == upgrade_begin()[i]);
        }
        if phase is Programming && event is EndOfFile {
            if i < 2 {
                assert(cmds[i] == upgrade_end()[i]);
            }
        }
    }
}

proof fn lemma_run_stays(phase: Phase, events: Seq<EventView>)
    requires
        phase_in_firmware(phase),
        run_defined(phase, events),
    ensures
        all_stay_in_firmware(flash_ops(run(phase, events).1)),
    decreases events.len(),
{
    if events.len() == 0 {
        assert(flash_ops(Seq::<CommandView>::empty()) =~= Seq::<FlashOp>::empty());
    } else {
        let (p1, c1) = next(phase, events[0]);
        lemma_step_stays(phase, events[0]);
        lemma_run_stays(p1, events.drop_first());
        let c2 = run(p1, events.drop_first()).1;
        lemma_flash_ops_stay(c1);
        lemma_flash_ops_append(c1, c2);
        let all = flash_ops(c1) + flash_ops(c2);
        assert forall|i: int| 0 <= i < all.len() implies stays_in_firmware(#[trigger] all[i]) by {
            if i >= flash_ops(c1).len() {
                assert(all[i] == flash_ops(c2)[i - flash_ops(c1).len()]);
            }
        }
    }
}

proof fn lemma_staying_ops_keep_bootloader(s: FlashState, ops: Seq<FlashOp>)
    requires
        all_stay_in_firmware(ops),
    ensures
        match apply_ops(s, ops) {
            Some(t) => forall|a: int| in_bootloader(a) ==> #[trigger] (t.memory)(a) == (s.memory)(a),
            None => true,
        },
    decreases ops.len(),
{
    if ops.len() > 0 {
        let rest = ops.drop_first();
        assert forall|i: int| 0 <= i < rest.len() implies stays_in_firmware(#[trigger] rest[i]) by {
            assert(rest[i] == ops[i + 1]);
        }
        assert(stays_in_firmware(ops[0]));
        match apply_op(s, ops[0]) {
            Some(t1) => {
                assert forall|a: int| in_bootloader(a) implies #[trigger] (t1.memory)(a) == (s.memory)(a) by {
                    lemma_partition_sectors(a);
                    if let FlashOp::EraseSector(n) = ops[0] {
                        if in_sector(n as int, a) {
                            assert(crate::controller::in_sectors(
                                FIRMWARE_FIRST_SECTOR as int,
                                FIRMWARE_LAST_SECTOR as int,
                                a,
                            ));
                        }
                    }
                }
                lemma_staying_ops_keep_bootloader(t1, rest);
            },
            None => {},
        }
    }
}

/// The bootloader partition is never changed, whatever the card holds:
/// for every sequence of answers that the check can take from its start,
/// every erase it issues is of a firmware sector and every byte it
/// programs lies from the start of the firmware on, so that carrying out
/// its flash operations, whatever the flash held before, leaves every
/// byte of the bootloader as it was.
pub proof fn lemma_bootloader_never_changes(s: FlashState, events: Seq<EventView>)
    requires
        run_defined(Phase::Start, events),
    ensures
        all_stay_in_firmware(flash_ops(run(Phase::Start, events).1)),
        match apply_ops(s, flash_ops(run(Phase::Start, events).1)) {
            Some(t) => forall|a: int| in_bootloader(a) ==> #[trigger] (t.memory)(a) == (s.memory)(a),
            None => true,
        },
{
    lemma_run_stays(Phase::Start, events);
    lemma_staying_ops_keep_bootloader(s, flash_ops(run(Phase::Start, events).1));
}

/// The LEDs show an upgrade in progress: no step of the check ever lights
/// the green LED or darkens the red one, and every step that starts an
/// upgrade (entering programming from outside it) switches the green LED
/// off and the red LED on before it erases the firmware sectors.
pub proof fn lemma_step_leds_show_upgrade(phase: Phase, event: EventView)
    ensures
        !next(phase, event).1.contains(CommandView::GreenLed(true)),
        !next(phase, event).1.contains(CommandView::RedLed(false)),
        ({
            let (p2, cmds) = next(phase, event);
            p2 is Programming && !(phase is Programming) ==> exists|i: int, j: int, k: int|
                0 <= i < k && 0 <= j < k && k < cmds.len() && cmds[i] == CommandView::GreenLed(false)
                    && cmds[j] == CommandView::RedLed(true) && cmds[k] == CommandView::Flash(
                    erase_plan(FIRMWARE_FIRST_SECTOR, FIRMWARE_LAST_SECTOR),
                )
        }),
{
    let (p2, cmds) = next(phase, event);
    assert forall|i: int| 0 <= i < cmds.len() implies cmds[i] != CommandView::GreenLed(true) && cmds[i]
        != CommandView::RedLed(false) by {
        if phase is AwaitInstallCheck && event == EventView::InstallFile(true) {
            if i >= 1 {
                assert(cmds[i] == upgrade_begin()[i - 1]);
            }
        }
        if phase is AwaitCountdown && event == EventView::Countdown(true) {
            assert(cmds[i] == upgrade_begin()[i]);
        }
        if phase is Programming && event is EndOfFile {
            if i < 2 {
                assert(cmds[i] == upgrade_end()[i]);
            }
        }
    }
    if p2 is Programming && !(phase is Programming) {
        if phase is AwaitInstallCheck {
            assert(cmds[1] == CommandView::GreenLed(false) && cmds[2] == CommandView::RedLed(true));
            assert(cmds[5] == CommandView::Flash(erase_plan(FIRMWARE_FIRST_SECTOR, FIRMWARE_LAST_SECTOR)));
        } else {
            assert(cmds[0] == CommandView::GreenLed(false) && cmds[1] == CommandView::RedLed(true));
            assert(cmds[4] == CommandView::Flash(erase_plan(FIRMWARE_FIRST_SECTOR, FIRMWARE_LAST_SECTOR)));
        }
    }
}

/// An upgrade asked for by the key begins exactly as one asked for by the
/// `install` file, only without announcing the `install` file: the same
/// LEDs, messages, erase and first request, in the same order.
pub proof fn lemma_key_and_install_upgrades_begin_alike()
    ensures
        next(Phase::AwaitCountdown, EventView::Countdown(true)).1 == next(
            Phase::AwaitInstallCheck,
            EventView::InstallFile(true),
        ).1.drop_first(),
        next(Phase::AwaitInstallCheck, EventView::InstallFile(true)).1[0] == CommandView::Log(
            Message::AutoUpgrade,
        ),
{
    assert((seq![CommandView::Log(Message::AutoUpgrade)] + upgrade_begin()).drop_first() =~= upgrade_begin());
}

} // verus!

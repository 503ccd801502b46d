//! Checking the SD card for a firmware image and upgrading the firmware.
//!
//! The check alternates between asking the card, the file system, the
//! timer and the key for something and deciding what to do next. Those
//! decisions are made here: [`check_and_upgrade`] takes the current
//! [`Phase`] and the answer to the last request (an [`Event`]) and returns
//! the next phase together with the [`Command`]s to carry out, the last of
//! which is the next request, or [`Command::Finish`] once the check is
//! over.

use vstd::prelude::*;
use crate::flash::{erase, erase_plan, write_plan, FlashOp};
use crate::layout::{FIRMWARE_FIRST_SECTOR, FIRMWARE_LAST_SECTOR, OS_START_ADDRESS};

verus! {

/// The name of the firmware image in the root directory of the card.
pub const FIRMWARE_FILE: &'static str = "firmware.bin";

/// The name of the file whose presence asks for an upgrade without waiting
/// for the key.
pub const INSTALL_FILE: &'static str = "install";

/// The lines that the bootloader prints on its serial console.
#[derive(Clone, Copy, Debug, PartialEq, Eq, Structural)]
pub enum Message {
    Banner,
    CheckingCard,
    Blank,
    NoCard,
    NoFirmware,
    FoundFirmware,
    BootCountdown,
    PressKey,
    AutoUpgrade,
    Upgrading,
    EraseStart,
    EraseDone,
    ProgramStart,
    UpgradeDone,
    DeleteInstall,
    BootOs,
}

/// The text of a console line.
pub open spec fn message_text(m: Message) -> Seq<char> {
    match m {
        Message::Banner => "This is a IAP bootloader"@,
        Message::CheckingCard => "start to check for upgrade from sd card"@,
        Message::Blank => ""@,
        Message::NoCard => "No Found Card"@,
        Message::NoFirmware => "No Found Firmware"@,
        Message::FoundFirmware => "found firmware"@,
        Message::BootCountdown => "if you do nothing, it will boot os in 5 seconds"@,
        Message::PressKey => "if you want to upgrade, press the KEY0"@,
        Message::AutoUpgrade => "found install file, auto upgrade"@,
        Message::Upgrading => "upgrading"@,
        Message::EraseStart => "start to erase flash, it will take minutes"@,
        Message::EraseDone => "erase flash successfully"@,
        Message::ProgramStart => "start to upgrade firmware"@,
        Message::UpgradeDone => "upgrade successfully"@,
        Message::DeleteInstall => "delete install file"@,
        Message::BootOs => "boot os"@,
    }
}

/// Different console lines never read alike: a line that reports a
/// stage as done, or a card or file as missing, can never be mistaken for
/// the one that announces the stage or reports the file found.
pub proof fn lemma_message_texts_distinct(m1: Message, m2: Message)
    ensures
        m1 != m2 ==> message_text(m1) != message_text(m2),
{
    reveal_strlit("This is a IAP bootloader");
    reveal_strlit("start to check for upgrade from sd card");
    reveal_strlit("");
    reveal_strlit("No Found Card");
    reveal_strlit("No Found Firmware");
    reveal_strlit("found firmware");
    reveal_strlit("if you do nothing, it will boot os in 5 seconds");
    reveal_strlit("if you want to upgrade, press the KEY0");
    reveal_strlit("found install file, auto upgrade");
    reveal_strlit("upgrading");
    reveal_strlit("start to erase flash, it will take minutes");
    reveal_strlit("erase flash successfully");
    reveal_strlit("start to upgrade firmware");
    reveal_strlit("upgrade successfully");
    reveal_strlit("delete install file");
    reveal_strlit("boot os");
    if m1 != m2 {
        let t1 = message_text(m1);
        let t2 = message_text(m2);
        if t1.len() == t2.len() && t1.len() > 0 {
            assert(t1[0] != t2[0] || t1[1] != t2[1] || t1[t1.len() - 1] != t2[t2.len() - 1] || t1[2] != t2[2]);
        }
    }
}

/// The console log of the bootloader, line by line: the text of every
/// console line.
pub proof fn lemma_console_log()
    ensures
        message_text(Message::Banner) == "This is a IAP bootloader"@,
        message_text(Message::CheckingCard) == "start to check for upgrade from sd card"@,
        message_text(Message::Blank) == ""@,
        message_text(Message::NoCard) == "No Found Card"@,
        message_text(Message::NoFirmware) == "No Found Firmware"@,
        message_text(Message::FoundFirmware) == "found firmware"@,
        message_text(Message::BootCountdown) == "if you do nothing, it will boot os in 5 seconds"@,
        message_text(Message::PressKey) == "if you want to upgrade, press the KEY0"@,
        message_text(Message::AutoUpgrade) == "found install file, auto upgrade"@,
        message_text(Message::Upgrading) == "upgrading"@,
        message_text(Message::EraseStart) == "start to erase flash, it will take minutes"@,
        message_text(Message::EraseDone) == "erase flash successfully"@,
        message_text(Message::ProgramStart) == "start to upgrade firmware"@,
        message_text(Message::UpgradeDone) == "upgrade successfully"@,
        message_text(Message::DeleteInstall) == "delete install file"@,
        message_text(Message::BootOs) == "boot os"@,
{
}

impl Message {
    /// The text of this console line.
    pub fn text(self) -> (s: &'static str)
        ensures
            s@ == message_text(self),
    {
        match self {
            Message::Banner => "This is a IAP bootloader",
            Message::CheckingCard => "start to check for upgrade from sd card",
            Message::Blank => "",
            Message::NoCard => "No Found Card",
            Message::NoFirmware => "No Found Firmware",
            Message::FoundFirmware => "found firmware",
            Message::BootCountdown => "if you do nothing, it will boot os in 5 seconds",
            Message::PressKey => "if you want to upgrade, press the KEY0",
            Message::AutoUpgrade => "found install file, auto upgrade",
            Message::Upgrading => "upgrading",
            Message::EraseStart => "start to erase flash, it will take minutes",
            Message::EraseDone => "erase flash successfully",
            Message::ProgramStart => "start to upgrade firmware",
            Message::UpgradeDone => "upgrade successfully",
            Message::DeleteInstall => "delete install file",
            Message::BootOs => "boot os",
        }
    }
}

/// Something for the board to carry out.
#[derive(Clone, Debug, PartialEq, Eq)]
pub enum Command {
    /// Switch the green LED on (`true`) or off.
    GreenLed(bool),
    /// Switch the red LED on (`true`) or off.
    RedLed(bool),
    /// Print a line on the serial console.
    Log(Message),
    /// Initialise the SD card; answered by [`Event::Card`].
    InitCard,
    /// Open the root directory and look for `firmware.bin`; answered by
    /// [`Event::Firmware`].
    LoadFirmware,
    /// Look for the `install` file; answered by [`Event::InstallFile`].
    CheckInstallFile,
    /// Start the one-second timer.
    EnableTimer,
    /// Enable the interrupt of the upgrade key.
    EnableButtonInterrupt,
    /// Wait until five seconds have passed; answered by [`Event::Countdown`].
    AwaitCountdown,
    /// Perform these flash controller operations in order.
    Flash(Vec<FlashOp>),
    /// Read the next block of the firmware image; answered by
    /// [`Event::Block`] or [`Event::EndOfFile`].
    ReadBlock,
    /// Delete the `install` file; answered by [`Event::Deleted`].
    DeleteInstallFile,
    /// The check is over.
    Finish,
}

/// What a [`Command`] is, with its flash operations as a sequence.
pub enum CommandView {
    GreenLed(bool),
    RedLed(bool),
    Log(Message),
    InitCard,
    LoadFirmware,
    CheckInstallFile,
    EnableTimer,
    EnableButtonInterrupt,
    AwaitCountdown,
    Flash(Seq<FlashOp>),
    ReadBlock,
    DeleteInstallFile,
    Finish,
}

impl View for Command {
    type V = CommandView;

    open spec fn view(&self) -> CommandView {
        match self {
            Command::GreenLed(on) => CommandView::GreenLed(*on),
            Command::RedLed(on) => CommandView::RedLed(*on),
            Command::Log(m) => CommandView::Log(*m),
            Command::InitCard => CommandView::InitCard,
            Command::LoadFirmware => CommandView::LoadFirmware,
            Command::CheckInstallFile => CommandView::CheckInstallFile,
            Command::EnableTimer => CommandView::EnableTimer,
            Command::EnableButtonInterrupt => CommandView::EnableButtonInterrupt,
            Command::AwaitCountdown => CommandView::AwaitCountdown,
            Command::Flash(ops) => CommandView::Flash(ops@),
            Command::ReadBlock => CommandView::ReadBlock,
            Command::DeleteInstallFile => CommandView::DeleteInstallFile,
            Command::Finish => CommandView::Finish,
        }
    }
}

/// The answer to the last request.
#[derive(Clone, Debug, PartialEq, Eq)]
pub enum Event {
    /// The check begins.
    Start,
    /// Whether the SD card could be initialised.
    Card(bool),
    /// Whether `firmware.bin` was found.
    Firmware(bool),
    /// Whether the `install` file exists.
    InstallFile(bool),
    /// Five seconds have passed; whether the upgrade key was pressed.
    Countdown(bool),
    /// The next block of the firmware image.
    Block(Vec<u8>),
    /// The firmware image has been read to its end.
    EndOfFile,
    /// The `install` file has been deleted.
    Deleted,
}

/// What an [`Event`] is, with a block as a sequence of bytes.
pub enum EventView {
    Start,
    Card(bool),
    Firmware(bool),
    InstallFile(bool),
    Countdown(bool),
    Block(Seq<u8>),
    EndOfFile,
    Deleted,
}

impl View for Event {
    type V = EventView;

    open spec fn view(&self) -> EventView {
        match self {
            Event::Start => EventView::Start,
            Event::Card(ok) => EventView::Card(*ok),
            Event::Firmware(found) => EventView::Firmware(*found),
            Event::InstallFile(exists) => EventView::InstallFile(*exists),
            Event::Countdown(pressed) => EventView::Countdown(*pressed),
            Event::Block(data) => EventView::Block(data@),
            Event::EndOfFile => EventView::EndOfFile,
            Event::Deleted => EventView::Deleted,
        }
    }
}

/// Where the check stands: which answer it waits for.
#[derive(Clone, Copy, Debug, PartialEq, Eq, Structural)]
pub enum Phase {
    /// Not begun; waits for [`Event::Start`].
    Start,
    /// Waits for [`Event::Card`].
    AwaitCard,
    /// Waits for [`Event::Firmware`].
    AwaitFirmware,
    /// Waits for [`Event::InstallFile`].
    AwaitInstallCheck,
    /// Waits for [`Event::Countdown`].
    AwaitCountdown,
    /// Writes the image; the next block goes to `address`. `auto` tells
    /// whether the upgrade was asked for by the `install` file.
    Programming { address: usize, auto: bool },
    /// Waits for [`Event::Deleted`].
    AwaitDelete,
    /// The check is over.
    Finished,
}

/// The views of a list of commands.
pub open spec fn views(cmds: Seq<Command>) -> Seq<CommandView> {
    cmds.map_values(|c: Command| c@)
}

/// The first part of an upgrade: LEDs, messages, erasing the firmware
/// sectors, and the request for the first block.
pub open spec fn upgrade_begin() -> Seq<CommandView> {
    seq![
        CommandView::GreenLed(false),
        CommandView::RedLed(true),
        CommandView::Log(Message::Upgrading),
        CommandView::Log(Message::EraseStart),
        CommandView::Flash(erase_plan(FIRMWARE_FIRST_SECTOR, FIRMWARE_LAST_SECTOR)),
        CommandView::Log(Message::EraseDone),
        CommandView::Log(Message::ProgramStart),
        CommandView::ReadBlock,
    ]
}

/// The messages once the whole image has been written.
pub open spec fn upgrade_end() -> Seq<CommandView> {
    seq![CommandView::Log(Message::UpgradeDone), CommandView::Log(Message::Blank)]
}

/// The next phase and the commands to carry out, for an event in a phase.
/// An event that does not answer what the phase waits for changes nothing.
pub open spec fn next(phase: Phase, event: EventView) -> (Phase, Seq<CommandView>) {
    match (phase, event) {
        (Phase::Start, EventView::Start) => (Phase::AwaitCard, seq![CommandView::InitCard]),
        (Phase::AwaitCard, EventView::Card(ok)) => if ok {
            (Phase::AwaitFirmware, seq![CommandView::LoadFirmware])
        } else {
            (Phase::Finished, seq![CommandView::Log(Message::NoCard), CommandView::Finish])
        },
        (Phase::AwaitFirmware, EventView::Firmware(found)) => if found {
            (Phase::AwaitInstallCheck, seq![CommandView::CheckInstallFile])
        } else {
            (Phase::Finished, seq![CommandView::Log(Message::NoFirmware), CommandView::Finish])
        },
        (Phase::AwaitInstallCheck, EventView::InstallFile(exists)) => if exists {
            (
                Phase::Programming { address: OS_START_ADDRESS, auto: true },
                seq![CommandView::Log(Message::AutoUpgrade)] + upgrade_begin(),
            )
        } else {
            (
                Phase::AwaitCountdown,
                seq![
                    CommandView::Log(Message::FoundFirmware),
                    CommandView::Log(Message::BootCountdown),
                    CommandView::Log(Message::PressKey),
                    CommandView::Log(Message::Blank),
                    CommandView::EnableTimer,
                    CommandView::EnableButtonInterrupt,
                    CommandView::AwaitCountdown,
                ],
            )
        },
        (Phase::AwaitCountdown, EventView::Countdown(pressed)) => if pressed {
            (Phase::Programming { address: OS_START_ADDRESS, auto: false }, upgrade_begin())
        } else {
            (Phase::Finished, seq![CommandView::Finish])
        },
        (Phase::Programming { address, auto }, EventView::Block(data)) => (
            Phase::Programming { address: (address + data.len()) as usize, auto },
            seq![CommandView::Flash(write_plan(address as int, data)), CommandView::ReadBlock],
        ),
        (Phase::Programming { address, auto }, EventView::EndOfFile) => if auto {
            (
                Phase::AwaitDelete,
                upgrade_end() + seq![
                    CommandView::Log(Message::DeleteInstall),
                    CommandView::Log(Message::Blank),
                    CommandView::DeleteInstallFile,
                ],
            )
        } else {
            (Phase::Finished, upgrade_end() + seq![CommandView::Finish])
        },
        (Phase::AwaitDelete, EventView::Deleted) => (Phase::Finished, seq![CommandView::Finish]),
        _ => (phase, Seq::empty()),
    }
}

/// Whether [`check_and_upgrade`] can take `event` in `phase`: a block must
/// not carry the write address past the end of the address space.
pub open spec fn step_defined(phase: Phase, event: EventView) -> bool {
    match (phase, event) {
        (Phase::Programming { address, .. }, EventView::Block(data)) => address + data.len() <= usize::MAX,
        _ => true,
    }
}

fn push(cmds: &mut Vec<Command>, c: Command)
    ensures
        views(final(cmds)@) == views(old(cmds)@).push(c@),
{
    cmds.push(c);
    assert(views(cmds@) =~= views(old(cmds)@).push(c@));
}

fn push_upgrade_begin(cmds: &mut Vec<Command>)
    ensures
        views(final(cmds)@) == views(old(cmds)@) + upgrade_begin(),
{
    let ghost start = views(cmds@);
    push(cmds, Command::GreenLed(false));
    push(cmds, Command::RedLed(true));
    push(cmds, Command::Log(Message::Upgrading));
    push(cmds, Command::Log(Message::EraseStart));
    let ops = erase(FIRMWARE_FIRST_SECTOR, FIRMWARE_LAST_SECTOR);
    push(cmds, Command::Flash(ops));
    push(cmds, Command::Log(Message::EraseDone));
    push(cmds, Command::Log(Message::ProgramStart));
    push(cmds, Command::ReadBlock);
    assert(views(cmds@) =~= start + upgrade_begin());
}

fn push_upgrade_end(cmds: &mut Vec<Command>)
    ensures
        views(final(cmds)@) == views(old(cmds)@) + upgrade_end(),
{
    let ghost start = views(cmds@);
    push(cmds, Command::Log(Message::UpgradeDone));
    push(cmds, Command::Log(Message::Blank));
    assert(views(cmds@) =~= start + upgrade_end());
}

/// Whether [`check_and_upgrade`] can take `event` in `phase`.
pub fn accepts(phase: &Phase, event: &Event) -> (r: bool)
    ensures
        r == step_defined(*phase, event@),
{
    match (phase, event) {
        (Phase::Programming { address, .. }, Event::Block(data)) => data.len() <= usize::MAX - *address,
        _ => true,
    }
}

/// Check the SD card for a firmware image and upgrade the firmware: one
/// step. Takes the answer to the last request, moves `phase` on and
/// returns what to carry out next.
pub fn check_and_upgrade(phase: &mut Phase, event: Event) -> (cmds: Vec<Command>)
    requires
        step_defined(*old(phase), event@),
    ensures
        (*final(phase), views(cmds@)) == next(*old(phase), event@),
{
    let mut cmds: Vec<Command> = Vec::new();
    let ghost empty = views(cmds@);
    assert(empty =~= Seq::<CommandView>::empty());
    match (*phase, event) {
        (Phase::Start, Event::Start) => {
            push(&mut cmds, Command::InitCard);
            *phase = Phase::AwaitCard;
        },
        (Phase::AwaitCard, Event::Card(ok)) => {
            if ok {
                push(&mut cmds, Command::LoadFirmware);
                *phase = Phase::AwaitFirmware;
            } else {
                push(&mut cmds, Command::Log(Message::NoCard));
                push(&mut cmds, Command::Finish);
                *phase = Phase::Finished;
            }
        },
        (Phase::AwaitFirmware, Event::Firmware(found)) => {
            if found {
                push(&mut cmds, Command::CheckInstallFile);
                *phase = Phase::AwaitInstallCheck;
            } else {
                push(&mut cmds, Command::Log(Message::NoFirmware));
                push(&mut cmds, Command::Finish);
                *phase = Phase::Finished;
            }
        },
        (Phase::AwaitInstallCheck, Event::InstallFile(exists)) => {
            if exists {
                push(&mut cmds, Command::Log(Message::AutoUpgrade));
                push_upgrade_begin(&mut cmds);
                *phase = Phase::Programming { address: OS_START_ADDRESS, auto: true };
            } else {
                push(&mut cmds, Command::Log(Message::FoundFirmware));
                push(&mut cmds, Command::Log(Message::BootCountdown));
                push(&mut cmds, Command::Log(Message::PressKey));
                push(&mut cmds, Command::Log(Message::Blank));
                push(&mut cmds, Command::EnableTimer);
                push(&mut cmds, Command::EnableButtonInterrupt);
                push(&mut cmds, Command::AwaitCountdown);
                *phase = Phase::AwaitCountdown;
            }
        },
        (Phase::AwaitCountdown, Event::Countdown(pressed)) => {
            if pressed {
                push_upgrade_begin(&mut cmds);
                *phase = Phase::Programming { address: OS_START_ADDRESS, auto: false };
            } else {
                push(&mut cmds, Command::Finish);
                *phase = Phase::Finished;
            }
        },
        (Phase::Programming { address, auto }, Event::Block(data)) => {
            let ops = crate::flash::write(address, data.as_slice());
            push(&mut cmds, Command::Flash(ops));
            push(&mut cmds, Command::ReadBlock);
            *phase = Phase::Programming { address: address + data.len(), auto };
        },
        (Phase::Programming { address, auto }, Event::EndOfFile) => {
            push_upgrade_end(&mut cmds);
            if auto {
                push(&mut cmds, Command::Log(Message::DeleteInstall));
                push(&mut cmds, Command::Log(Message::Blank));
                push(&mut cmds, Command::DeleteInstallFile);
                *phase = Phase::AwaitDelete;
            } else {
                push(&mut cmds, Command::Finish);
                *phase = Phase::Finished;
            }
        },
        (Phase::AwaitDelete, Event::Deleted) => {
            push(&mut cmds, Command::Finish);
            *phase = Phase::Finished;
        },
        _ => {},
    }
    assert(views(cmds@) =~= next(*old(phase), event@).1);
    cmds
}

} // verus!

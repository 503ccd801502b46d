use std::collections::HashMap;

use bootloader::flash::{erase, FlashOp, FLASH_KEY1, FLASH_KEY2};
use bootloader::layout::{FLASH_BASE, FLASH_END, OS_START_ADDRESS};
use bootloader::upgrade::{accepts, check_and_upgrade, Command, Event, Message, Phase};

fn run(events: Vec<Event>) -> (Phase, Vec<Command>) {
    let mut phase = Phase::Start;
    let mut all = Vec::new();
    for e in events {
        assert!(accepts(&phase, &e));
        all.extend(check_and_upgrade(&mut phase, e));
    }
    (phase, all)
}

fn flash_ops(cmds: &[Command]) -> Vec<FlashOp> {
    let mut ops = Vec::new();
    for c in cmds {
        if let Command::Flash(o) = c {
            ops.extend(o.iter().copied());
        }
    }
    ops
}

/// A flash controller as the reference manual describes it: locked after
/// reset, unlocked by the two keys, programming clears bits, erasing sets
/// a sector to 0xFF. Returns false on a fault.
struct Controller {
    stage: u8,
    memory: HashMap<usize, u8>,
}

impl Controller {
    fn new() -> Controller {
        Controller { stage: 0, memory: HashMap::new() }
    }

    fn byte(&self, a: usize) -> u8 {
        *self.memory.get(&a).unwrap_or(&0x00)
    }

    fn sector_range(n: u8) -> (usize, usize) {
        let n = n as usize;
        if n < 4 {
            (FLASH_BASE + n * 0x4000, 0x4000)
        } else if n == 4 {
            (FLASH_BASE + 0x1_0000, 0x1_0000)
        } else {
            (FLASH_BASE + 0x2_0000 + (n - 5) * 0x2_0000, 0x2_0000)
        }
    }

    fn apply(&mut self, op: FlashOp) -> bool {
        match op {
            FlashOp::WriteKey(k) => match self.stage {
                0 if k == FLASH_KEY1 => self.stage = 1,
                1 if k == FLASH_KEY2 => self.stage = 2,
                _ => return false,
            },
            FlashOp::Program { address, data } => {
                if self.stage != 2 || address < FLASH_BASE || address >= FLASH_END {
                    return false;
                }
                let old = self.byte(address);
                self.memory.insert(address, old & data);
            }
            FlashOp::EraseSector(n) => {
                if self.stage != 2 || n >= 12 {
                    return false;
                }
                let (start, size) = Controller::sector_range(n);
                for a in start..start + size {
                    self.memory.insert(a, 0xFF);
                }
            }
            FlashOp::Lock => self.stage = 0,
        }
        true
    }
}

#[test]
fn install_file_upgrade_commands() {
    let mut phase = Phase::Start;
    assert_eq!(check_and_upgrade(&mut phase, Event::Start), vec![Command::InitCard]);
    assert_eq!(phase, Phase::AwaitCard);
    assert_eq!(check_and_upgrade(&mut phase, Event::Card(true)), vec![Command::LoadFirmware]);
    assert_eq!(check_and_upgrade(&mut phase, Event::Firmware(true)), vec![Command::CheckInstallFile]);
    let cmds = check_and_upgrade(&mut phase, Event::InstallFile(true));
    assert_eq!(
        cmds,
        vec![
            Command::Log(Message::AutoUpgrade),
            Command::GreenLed(false),
            Command::RedLed(true),
            Command::Log(Message::Upgrading),
            Command::Log(Message::EraseStart),
            Command::Flash(erase(5, 11)),
            Command::Log(Message::EraseDone),
            Command::Log(Message::ProgramStart),
            Command::ReadBlock,
        ]
    );
    assert_eq!(phase, Phase::Programming { address: OS_START_ADDRESS, auto: true });
    let cmds = check_and_upgrade(&mut phase, Event::Block(vec![1, 2, 3]));
    assert_eq!(cmds, vec![Command::Flash(bootloader::flash::write(0x0802_0000, &[1, 2, 3])), Command::ReadBlock]);
    assert_eq!(phase, Phase::Programming { address: 0x0802_0003, auto: true });
    let cmds = check_and_upgrade(&mut phase, Event::EndOfFile);
    assert_eq!(
        cmds,
        vec![
            Command::Log(Message::UpgradeDone),
            Command::Log(Message::Blank),
            Command::Log(Message::DeleteInstall),
            Command::Log(Message::Blank),
            Command::DeleteInstallFile,
        ]
    );
    assert_eq!(phase, Phase::AwaitDelete);
    assert_eq!(check_and_upgrade(&mut phase, Event::Deleted), vec![Command::Finish]);
    assert_eq!(phase, Phase::Finished);
}

#[test]
fn key_press_upgrade_does_not_delete() {
    let (phase, cmds) = run(vec![
        Event::Start,
        Event::Card(true),
        Event::Firmware(true),
        Event::InstallFile(false),
        Event::Countdown(true),
        Event::Block(vec![9; 512]),
        Event::EndOfFile,
    ]);
    assert_eq!(phase, Phase::Finished);
    assert!(!cmds.contains(&Command::DeleteInstallFile));
    assert_eq!(cmds.last(), Some(&Command::Finish));
    assert!(cmds.contains(&Command::EnableTimer));
    assert!(cmds.contains(&Command::EnableButtonInterrupt));
    assert!(cmds.contains(&Command::AwaitCountdown));
    assert_eq!(flash_ops(&cmds).len(), 2 + 7 + 1 + 2 + 512 + 1);
}

#[test]
fn countdown_without_key_boots_without_flashing() {
    let (phase, cmds) = run(vec![
        Event::Start,
        Event::Card(true),
        Event::Firmware(true),
        Event::InstallFile(false),
        Event::Countdown(false),
    ]);
    assert_eq!(phase, Phase::Finished);
    assert_eq!(
        cmds,
        vec![
            Command::InitCard,
            Command::LoadFirmware,
            Command::CheckInstallFile,
            Command::Log(Message::FoundFirmware),
            Command::Log(Message::BootCountdown),
            Command::Log(Message::PressKey),
            Command::Log(Message::Blank),
            Command::EnableTimer,
            Command::EnableButtonInterrupt,
            Command::AwaitCountdown,
            Command::Finish,
        ]
    );
}

#[test]
fn no_card() {
    let (phase, cmds) = run(vec![Event::Start, Event::Card(false)]);
    assert_eq!(phase, Phase::Finished);
    assert_eq!(cmds, vec![Command::InitCard, Command::Log(Message::NoCard), Command::Finish]);
}

#[test]
fn no_firmware() {
    let (phase, cmds) = run(vec![Event::Start, Event::Card(true), Event::Firmware(false)]);
    assert_eq!(phase, Phase::Finished);
    assert_eq!(
        cmds,
        vec![Command::InitCard, Command::LoadFirmware, Command::Log(Message::NoFirmware), Command::Finish]
    );
}

#[test]
fn answer_out_of_turn_changes_nothing() {
    let mut phase = Phase::AwaitCard;
    assert!(check_and_upgrade(&mut phase, Event::EndOfFile).is_empty());
    assert_eq!(phase, Phase::AwaitCard);
    let mut phase = Phase::Finished;
    assert!(check_and_upgrade(&mut phase, Event::Start).is_empty());
    assert_eq!(phase, Phase::Finished);
    let mut phase = Phase::AwaitCountdown;
    assert!(check_and_upgrade(&mut phase, Event::Block(vec![1])).is_empty());
    assert_eq!(phase, Phase::AwaitCountdown);
}

#[test]
fn accepts_refuses_address_overflow() {
    let phase = Phase::Programming { address: usize::MAX - 1, auto: false };
    assert!(accepts(&phase, &Event::Block(vec![1])));
    assert!(!accepts(&phase, &Event::Block(vec![1, 2])));
    assert!(accepts(&phase, &Event::EndOfFile));
}

#[test]
fn upgrade_writes_image_at_firmware_start() {
    let image: Vec<u8> = (0..1500u32).map(|i| (i * 7 % 251) as u8).collect();
    let mut events = vec![Event::Start, Event::Card(true), Event::Firmware(true), Event::InstallFile(true)];
    for chunk in image.chunks(512) {
        events.push(Event::Block(chunk.to_vec()));
    }
    events.push(Event::EndOfFile);
    events.push(Event::Deleted);
    let (phase, cmds) = run(events);
    assert_eq!(phase, Phase::Finished);

    let mut flash = Controller::new();
    // The bootloader's own bytes and some old firmware.
    flash.memory.insert(FLASH_BASE, 0x12);
    flash.memory.insert(OS_START_ADDRESS - 1, 0x34);
    flash.memory.insert(OS_START_ADDRESS + 5000, 0x00);
    for op in flash_ops(&cmds) {
        assert!(flash.apply(op));
    }
    assert_eq!(flash.stage, 0);
    for (i, b) in image.iter().enumerate() {
        assert_eq!(flash.byte(OS_START_ADDRESS + i), *b);
    }
    assert_eq!(flash.byte(OS_START_ADDRESS + image.len()), 0xFF);
    assert_eq!(flash.byte(OS_START_ADDRESS + 5000), 0xFF);
    assert_eq!(flash.byte(FLASH_END - 1), 0xFF);
    assert_eq!(flash.byte(FLASH_BASE), 0x12);
    assert_eq!(flash.byte(OS_START_ADDRESS - 1), 0x34);
    let delete_at = cmds.iter().position(|c| *c == Command::DeleteInstallFile).unwrap();
    let last_flash = cmds.iter().rposition(|c| matches!(c, Command::Flash(_))).unwrap();
    assert!(last_flash < delete_at);
}

#[test]
fn write_outside_flash_faults() {
    let mut flash = Controller::new();
    let ops = bootloader::flash::write(FLASH_END - 1, &[1, 2]);
    let mut ok = true;
    for op in ops {
        ok = ok && flash.apply(op);
    }
    assert!(!ok);
}

#[test]
fn erase_firmware_keeps_bootloader() {
    let mut flash = Controller::new();
    flash.memory.insert(OS_START_ADDRESS - 1, 0x5A);
    flash.memory.insert(OS_START_ADDRESS, 0x00);
    for op in erase(5, 11) {
        assert!(flash.apply(op));
    }
    assert_eq!(flash.byte(OS_START_ADDRESS - 1), 0x5A);
    assert_eq!(flash.byte(OS_START_ADDRESS), 0xFF);
    assert_eq!(flash.stage, 0);
}

#[test]
fn message_texts() {
    assert_eq!(Message::Banner.text(), "This is a IAP bootloader");
    assert_eq!(Message::NoCard.text(), "No Found Card");
    assert_eq!(Message::BootCountdown.text(), "if you do nothing, it will boot os in 5 seconds");
    assert_eq!(Message::PressKey.text(), "if you want to upgrade, press the KEY0");
    assert_eq!(Message::Blank.text(), "");
    assert_eq!(Message::BootOs.text(), "boot os");
}

#[test]
fn bootloader_unchanged_for_every_card() {
    let big: Vec<u8> = vec![0; 0x000E_0000 + 1024];
    let small: Vec<u8> = vec![0x11; 700];
    let mut shapes: Vec<Vec<Event>> = vec![
        vec![Event::Start, Event::Card(false)],
        vec![Event::Start, Event::Card(true), Event::Firmware(false)],
        vec![Event::Start, Event::Card(true), Event::Firmware(true), Event::InstallFile(false), Event::Countdown(false)],
    ];
    for image in [&small, &big] {
        for install in [true, false] {
            let mut events = vec![Event::Start, Event::Card(true), Event::Firmware(true), Event::InstallFile(install)];
            if !install {
                events.push(Event::Countdown(true));
            }
            for chunk in image.chunks(512) {
                events.push(Event::Block(chunk.to_vec()));
            }
            events.push(Event::EndOfFile);
            if install {
                events.push(Event::Deleted);
            }
            shapes.push(events);
        }
    }
    for events in shapes {
        let (_, cmds) = run(events);
        let mut flash = Controller::new();
        flash.memory.insert(FLASH_BASE, 0xA5);
        flash.memory.insert(OS_START_ADDRESS - 1, 0x5A);
        for op in flash_ops(&cmds) {
            match op {
                FlashOp::EraseSector(n) => assert!((5..=11).contains(&n)),
                FlashOp::Program { address, .. } => assert!(address >= OS_START_ADDRESS),
                _ => {}
            }
            if !flash.apply(op) {
                break;
            }
        }
        assert_eq!(flash.byte(FLASH_BASE), 0xA5);
        assert_eq!(flash.byte(OS_START_ADDRESS - 1), 0x5A);
    }
}

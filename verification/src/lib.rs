//! An in-application-programming bootloader for an STM32F407 board, as a
//! verified library.
//!
//! The library holds the decisions of the bootloader: which flash
//! controller operations an erase or a write performs, how an upgrade
//! session reacts to what the SD card reports, and what the serial and SPI
//! peripherals are handed. Register access and the SD card driver stay with
//! the program that runs the library on the board.

pub mod layout;
pub mod flash;
pub mod controller;
pub mod upgrade;
pub mod upgrade_runs;
pub mod serial;
pub mod usb_ttl;
pub mod usart;
pub mod tf;

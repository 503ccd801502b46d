[package]
name = "bootloader"
version = "0.1.0"
edition = "2021"
publish = false

[dependencies]
embedded-sdmmc = "=0.10.0"
embedded-hal = "=0.2.7"
nb = "=0.1.3"
stm32f4xx-hal = { version = "=0.8.3", features = ["stm32f407", "rt"] }
stm32f1xx-hal = { version = "=0.6.1", features = ["stm32f103"] }
fat32 = "=0.2.0"
sdio_sdhc = { version = "=0.2.3", features = ["filesystem"] }
cortex-m = "=0.7.10"
cortex-m-rt = "=0.6.15"

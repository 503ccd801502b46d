# bootloader

An in-application-programming bootloader for an STM32F407 board: on power-up
it looks on the SD card for `firmware.bin`, upgrades the firmware in flash
sectors 5 to 11 when an `install` file exists or KEY0 is pressed within five
seconds, and then jumps to the firmware at `0x0802_0000`.

- `src/` is the verified library: the flash layout (`layout`), the flash
  controller protocol for erasing and writing (`flash`) with a model of the
  controller and the proofs of what an upgrade leaves in flash
  (`controller`), the firmware check as a step function (`upgrade`) with
  the proofs about whole runs (`upgrade_runs`), and the values handed to the
  serial and SPI peripherals (`serial`, `usb_ttl`, `usart`, `tf`).
- `app/` is the program for the board: register access, the SD card and
  FAT32 drivers, interrupts, and the loop that carries out the commands of
  the library and hands back what the hardware answered.
- `tests/` runs the library on concrete inputs.

use vstd::prelude::*;

verus! {

// Firmware commands
pub const FIRMWARE_PP: u8 = 0x02;
pub const FIRMWARE_READ: u8 = 0x03;
pub const FIRMWARE_WRDI: u8 = 0x04;
pub const FIRMWARE_RDSR: u8 = 0x05;
pub const FIRMWARE_WREN: u8 = 0x06;
pub const FIRMWARE_PW: u8 = 0x0A;
pub const FIRMWARE_FAST: u8 = 0x0B;
pub const FIRMWARE_RDID: u8 = 0x9F;
pub const FIRMWARE_RDP: u8 = 0xAB;
pub const FIRMWARE_DP: u8 = 0xB9;
pub const FIRMWARE_SE: u8 = 0xD8;
pub const FIRMWARE_PE: u8 = 0xDB;

// Addresses of the SPI registers
pub const REG_SPI_CNT_ADDR: usize = 0x040001C0;
pub const REG_SPI_DATA_ADDR: usize = 0x040001C2;

// SPI_CNT flags
pub const SPI_DISABLE: u16 = 0;
pub const SPI_ENABLE: u16 = 0x8000;
pub const SPI_BYTE_MODE: u16 = 0x0400;
pub const SPI_CONTINUOUS: u16 = 0x0800;
pub const SPI_BUSY: u16 = 0x0080;
// The firmware chip is the NVRAM device: both names select it.
pub const SPI_DEVICE_FIRMWARE: u16 = 0x0100;
pub const SPI_DEVICE_NVRAM: u16 = 0x0100;

// Status register flags of the firmware chip
pub const SPI_WORKING: u8 = 0x01;
pub const SPI_WRITE_ENABLED: u8 = 0x02;

} // verus!

//! GPU lighting controller on an SMBus register interface. Each register write is a
//! word write that selects the register, byte-swapped, then a byte write of the value.
use vstd::prelude::*;

verus! {

/// Bus address of the lighting controller.
pub const ENE_I2C_ADDR: u16 = 0x67;
pub const ENE_REG_MODE: u16 = 0x8021;
pub const ENE_REG_APPLY: u16 = 0x80A0;
pub const ENE_MODE_OFF: u8 = 0x00;
pub const ENE_APPLY_VAL: u8 = 0x01;
/// SMBus command of the register address selector (a word write).
pub const SMBUS_CMD_ADDR: u8 = 0x00;
/// SMBus command of the data write (a byte write).
pub const SMBUS_CMD_DATA: u8 = 0x01;

/// `v` with its two bytes exchanged.
pub open spec fn swapped(v: u16) -> int {
    (v as int % 256) * 256 + v as int / 256
}

/// Exchanges the two bytes of `val`: the controller reads register addresses
/// little-endian from a bus that sends words big-endian.
pub fn swap_bytes(val: u16) -> (r: u16)
    ensures
        r as int == swapped(val),
{
    let r = ((val & 0xFF) << 8) | ((val >> 8) & 0xFF);
    assert(r == (val % 256) * 256 + val / 256) by (bit_vector)
        requires r == ((val & 0xFF) << 8) | ((val >> 8) & 0xFF);
    r
}

/// One SMBus transaction.
#[derive(Clone, Copy, Debug, PartialEq, Eq, Structural)]
pub enum SmbusWrite {
    Word { command: u8, value: u16 },
    Byte { command: u8, value: u8 },
}

/// Selects register `reg`, then writes `value` to it.
pub open spec fn register_write(reg: u16, value: u8) -> Seq<SmbusWrite> {
    seq![
        SmbusWrite::Word { command: SMBUS_CMD_ADDR, value: swapped(reg) as u16 },
        SmbusWrite::Byte { command: SMBUS_CMD_DATA, value: value },
    ]
}

/// The lights-off sequence: the mode register set to off, then the apply register
/// set to its apply value.
pub open spec fn disable_sequence() -> Seq<SmbusWrite> {
    register_write(ENE_REG_MODE, ENE_MODE_OFF) + register_write(ENE_REG_APPLY, ENE_APPLY_VAL)
}

/// The four writes that switch the controller's lights off, in the order they must be
/// issued; the first that fails ends the operation.
pub fn disable_writes() -> (r: Vec<SmbusWrite>)
    ensures
        r@ == disable_sequence(),
{
    let mode = swap_bytes(ENE_REG_MODE);
    let apply = swap_bytes(ENE_REG_APPLY);
    let r = vec![
        SmbusWrite::Word { command: SMBUS_CMD_ADDR, value: mode },
        SmbusWrite::Byte { command: SMBUS_CMD_DATA, value: ENE_MODE_OFF },
        SmbusWrite::Word { command: SMBUS_CMD_ADDR, value: apply },
        SmbusWrite::Byte { command: SMBUS_CMD_DATA, value: ENE_APPLY_VAL },
    ];
    assert(r@ =~= disable_sequence());
    r
}

} // verus!

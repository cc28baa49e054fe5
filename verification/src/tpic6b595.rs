//! The signalling of a TPIC6B595, an eight-bit shift register that feeds an
//! eight-bit storage register and, through it, eight outputs.
//!
//! Three lines run to the device: `SRCK`, whose rising edge shifts the level
//! of `SER IN` into the shift register, and `RCK`, whose rising edge copies
//! the shift register to the storage register. `SRCLR` is tied high and the
//! output enable `G` is driven elsewhere, so neither appears here.
//!
//! The driver keeps the level of each line and answers every request with the
//! signals that carry it out, in order. Whoever owns the pins plays them.
//! Between requests the lines are at rest, which is low: every request
//! leaves low each line that it has driven.

use vstd::prelude::*;
use crate::bits::bit_of;

verus! {

/// Microseconds for the lines to settle after they are first brought low.
pub const SETTLE_MICROS: u64 = 10;

/// Microseconds to hold a level before and after a clock edge.
pub const PULSE_MICROS: u64 = 1;

/// One of the three lines to the device.
#[derive(Clone, Copy, Debug, PartialEq, Eq, Structural)]
pub enum Line {
    /// Shift-register clock.
    Srck,
    /// Register clock, the latch.
    Rck,
    /// Serial data.
    SerIn,
}

/// One thing to do on the lines.
#[derive(Clone, Copy, Debug, PartialEq, Eq, Structural)]
pub enum Signal {
    /// Bring a line to a level: high for `true`, low for `false`.
    Drive(Line, bool),
    /// Leave the lines as they are for at least this many microseconds.
    Wait(u64),
}

impl Signal {
    /// Whether this signal sets the level of `line`.
    pub open spec fn drives(self, line: Line) -> bool {
        match self {
            Signal::Drive(driven, _) => driven == line,
            Signal::Wait(_) => false,
        }
    }
}

/// The levels of the three lines.
pub struct Lines {
    pub srck: bool,
    pub rck: bool,
    pub ser_in: bool,
}

/// All lines low, then time to settle.
pub open spec fn init_script() -> Seq<Signal> {
    seq![
        Signal::Drive(Line::Srck, false),
        Signal::Drive(Line::Rck, false),
        Signal::Drive(Line::SerIn, false),
        Signal::Wait(SETTLE_MICROS),
    ]
}

/// One bit: the data line takes the bit's level and stays there while the
/// clock goes up and down again.
pub open spec fn bit_script(bit: bool) -> Seq<Signal> {
    seq![
        Signal::Drive(Line::SerIn, bit),
        Signal::Wait(PULSE_MICROS),
        Signal::Drive(Line::Srck, true),
        Signal::Wait(PULSE_MICROS),
        Signal::Drive(Line::Srck, false),
    ]
}

/// The `count` most significant bits of `data`, bit 7 first.
pub open spec fn bits_script(data: u8, count: int) -> Seq<Signal>
    decreases count,
{
    if count <= 0 {
        Seq::empty()
    } else {
        bits_script(data, count - 1) + bit_script(bit_of(data, (8 - count) as u8))
    }
}

/// The data line back to low, once the last bit is in. The clock is low by
/// then and stays so, so that nothing is shifted.
pub open spec fn release_script() -> Seq<Signal> {
    seq![Signal::Drive(Line::SerIn, false)]
}

/// A whole byte, most significant bit first, and the data line low again at
/// the end.
pub open spec fn byte_script(data: u8) -> Seq<Signal> {
    bits_script(data, 8) + release_script()
}

/// The first `count` bytes of `data`, one after the other.
pub open spec fn bytes_script_first(data: Seq<u8>, count: int) -> Seq<Signal>
    decreases count,
{
    if count <= 0 {
        Seq::empty()
    } else {
        bytes_script_first(data, count - 1) + byte_script(data[count - 1])
    }
}

/// Several bytes, in the order given.
pub open spec fn bytes_script(data: Seq<u8>) -> Seq<Signal> {
    bytes_script_first(data, data.len() as int)
}

/// One pulse on the latch.
pub open spec fn latch_script() -> Seq<Signal> {
    seq![
        Signal::Drive(Line::Rck, true),
        Signal::Wait(PULSE_MICROS),
        Signal::Drive(Line::Rck, false),
    ]
}

/// Driver of one TPIC6B595, or of several in a chain.
pub struct TPIC6B595 {
    /// Shift-register clock: a bit is shifted in on its rising edge.
    srck: bool,
    /// Register clock: the shift register is copied to the storage register
    /// on its rising edge.
    rck: bool,
    /// Serial data.
    ser_in: bool,
}

impl View for TPIC6B595 {
    type V = Lines;

    closed spec fn view(&self) -> Lines {
        Lines { srck: self.srck, rck: self.rck, ser_in: self.ser_in }
    }
}

impl TPIC6B595 {
    /// A driver for lines that stand at the given levels.
    pub fn new(srck: bool, rck: bool, ser_in: bool) -> (driver: Self)
        ensures
            driver@ == (Lines { srck, rck, ser_in }),
    {
        Self { srck, rck, ser_in }
    }

    /// The level at which the driver left `SRCK`.
    pub fn srck(&self) -> (high: bool)
        ensures
            high == self@.srck,
    {
        self.srck
    }

    /// The level at which the driver left `RCK`.
    pub fn rck(&self) -> (high: bool)
        ensures
            high == self@.rck,
    {
        self.rck
    }

    /// The level at which the driver left `SER IN`.
    pub fn ser_in(&self) -> (high: bool)
        ensures
            high == self@.ser_in,
    {
        self.ser_in
    }

    /// Brings all three lines low and lets them settle.
    pub fn init(&mut self) -> (script: Vec<Signal>)
        ensures
            script@ == init_script(),
            final(self)@ == (Lines { srck: false, rck: false, ser_in: false }),
    {
        let mut script: Vec<Signal> = Vec::new();
        self.srck = false;
        script.push(Signal::Drive(Line::Srck, false));
        self.rck = false;
        script.push(Signal::Drive(Line::Rck, false));
        self.ser_in = false;
        script.push(Signal::Drive(Line::SerIn, false));
        script.push(Signal::Wait(SETTLE_MICROS));
        assert(script@ =~= init_script());
        script
    }

    /// Adds to `script` the signals that shift one bit in.
    fn push_bit(&mut self, bit: bool, script: &mut Vec<Signal>)
        ensures
            final(script)@ == old(script)@ + bit_script(bit),
            final(self)@ == (Lines { srck: false, rck: old(self)@.rck, ser_in: bit }),
    {
        self.ser_in = bit;
        script.push(Signal::Drive(Line::SerIn, bit));
        script.push(Signal::Wait(PULSE_MICROS));
        self.srck = true;
        script.push(Signal::Drive(Line::Srck, true));
        script.push(Signal::Wait(PULSE_MICROS));
        self.srck = false;
        script.push(Signal::Drive(Line::Srck, false));
        assert(script@ =~= old(script)@ + bit_script(bit));
    }

    /// Shifts a byte in, bit 7 first and bit 0 last, and brings the data line
    /// low again: clock and data line are low at the end, whatever the byte.
    /// Nothing is latched: the outputs stay as they are.
    pub fn push_byte(&mut self, data: u8) -> (script: Vec<Signal>)
        ensures
            script@ == byte_script(data),
            final(self)@ == (Lines { srck: false, rck: old(self)@.rck, ser_in: false }),
    {
        let mut script: Vec<Signal> = Vec::new();
        let mut i: u8 = 8;
        while i > 0
            invariant
                i <= 8,
                script@ == bits_script(data, 8 - i),
                self@.rck == old(self)@.rck,
                i < 8 ==> !self@.srck,
            decreases i,
        {
            i -= 1;
            let bit = (data >> i) & 0x01;
            assert((bit != 0) == bit_of(data, i)) by (bit_vector)
                requires
                    bit == (data >> i) & 0x01,
            ;
            self.push_bit(bit != 0, &mut script);
        }
        self.ser_in = false;
        script.push(Signal::Drive(Line::SerIn, false));
        assert(script@ =~= byte_script(data));
        script
    }

    /// Pulses the latch: the shift register is copied to the storage
    /// register, and so to the outputs, on the rising edge.
    pub fn transfer_to_storage(&mut self) -> (script: Vec<Signal>)
        ensures
            script@ == latch_script(),
            final(self)@ == (Lines { rck: false, ..old(self)@ }),
    {
        let mut script: Vec<Signal> = Vec::new();
        self.rck = true;
        script.push(Signal::Drive(Line::Rck, true));
        script.push(Signal::Wait(PULSE_MICROS));
        self.rck = false;
        script.push(Signal::Drive(Line::Rck, false));
        assert(script@ =~= latch_script());
        script
    }

    /// Shifts a byte in and latches it. The latch pulse comes after the last
    /// bit, so the outputs change once, from the old byte to the new one. All
    /// three lines are low at the end.
    pub fn push_byte_and_transfer(&mut self, data: u8) -> (script: Vec<Signal>)
        ensures
            script@ == byte_script(data) + latch_script(),
            final(self)@ == (Lines { srck: false, rck: false, ser_in: false }),
    {
        let mut script = self.push_byte(data);
        let mut latch = self.transfer_to_storage();
        script.append(&mut latch);
        script
    }

    /// Shifts several bytes in, in the order given, for devices in a chain:
    /// the first byte ends up in the device farthest down the chain. Nothing
    /// is latched. Clock and data line are low at the end; with no byte to
    /// send there is nothing to signal, and the lines stay as they are.
    pub fn push_bytes(&mut self, data: &[u8]) -> (script: Vec<Signal>)
        ensures
            script@ == bytes_script(data@),
            final(self)@ == (if data@.len() == 0 {
                old(self)@
            } else {
                Lines { srck: false, rck: old(self)@.rck, ser_in: false }
            }),
    {
        let mut script: Vec<Signal> = Vec::new();
        let mut i: usize = 0;
        while i < data.len()
            invariant
                i <= data.len(),
                script@ == bytes_script_first(data@, i as int),
                self@ == (if i == 0 {
                    old(self)@
                } else {
                    Lines { srck: false, rck: old(self)@.rck, ser_in: false }
                }),
            decreases data.len() - i,
        {
            let mut byte = self.push_byte(data[i]);
            script.append(&mut byte);
            i += 1;
        }
        script
    }

    /// Shifts several bytes in and latches them: all outputs of the chain
    /// change at once.
    pub fn push_bytes_and_transfer(&mut self, data: &[u8]) -> (script: Vec<Signal>)
        ensures
            script@ == bytes_script(data@) + latch_script(),
            final(self)@ == (if data@.len() == 0 {
                Lines { rck: false, ..old(self)@ }
            } else {
                Lines { srck: false, rck: false, ser_in: false }
            }),
    {
        let mut script = self.push_bytes(data);
        let mut latch = self.transfer_to_storage();
        script.append(&mut latch);
        script
    }

    /// Puts `pattern` on the outputs: bit 0 on output 0, bit 7 on output 7.
    /// All three lines are low at the end.
    pub fn set_outputs(&mut self, pattern: u8) -> (script: Vec<Signal>)
        ensures
            script@ == byte_script(pattern) + latch_script(),
            final(self)@ == (Lines { srck: false, rck: false, ser_in: false }),
    {
        self.push_byte_and_transfer(pattern)
    }

    /// Brings every output low.
    pub fn clear_outputs(&mut self) -> (script: Vec<Signal>)
        ensures
            script@ == byte_script(0x00) + latch_script(),
            final(self)@ == (Lines { srck: false, rck: false, ser_in: false }),
    {
        self.push_byte_and_transfer(0x00)
    }

    /// Brings every output high.
    pub fn set_all_outputs(&mut self) -> (script: Vec<Signal>)
        ensures
            script@ == byte_script(0xFF) + latch_script(),
            final(self)@ == (Lines { srck: false, rck: false, ser_in: false }),
    {
        self.push_byte_and_transfer(0xFF)
    }
}

} // verus!

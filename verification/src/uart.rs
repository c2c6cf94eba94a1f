//! The serial port's register layout: the offsets of the NS16550A's
//! registers and the meaning of their bits.  Reading and writing the
//! memory-mapped registers is the embedder's; the encodings are here.

use vstd::prelude::*;

verus! {

/// Register offset of the interrupt-enable register.
pub const INTERRUPT_OFFSET: usize = 1;

/// Register offset of the FIFO-control register.
pub const FIFO_OFFSET: usize = 2;

/// Register offset of the line-control register.
pub const LINE_CONTROL_OFFSET: usize = 3;

/// Register offset of the line-status register.
pub const LINE_STATUS_OFFSET: usize = 5;

/// The interrupt-enable register: bit 0 enables receive interrupts.
#[derive(Clone, Copy, PartialEq, Eq, Structural, Debug)]
pub struct Interrupt {
    pub raw: u8,
}

impl Interrupt {
    /// The register value with interrupts enabled or disabled.
    pub fn with_enabled(enabled: bool) -> (r: Interrupt)
        ensures
            r.raw == (if enabled {
                1u8
            } else {
                0u8
            }),
    {
        Interrupt { raw: if enabled {
            1
        } else {
            0
        } }
    }

    /// Whether receive interrupts are enabled.
    pub fn enabled(&self) -> (r: bool)
        ensures
            r == (self.raw & 1 == 1),
    {
        proof {
            let v = self.raw;
            assert((v & 1 == 1) == !(v & 1 == 0)) by (bit_vector);
        }
        self.raw & 1 != 0
    }
}

/// The FIFO-control register: bit 0 enables the FIFOs.
#[derive(Clone, Copy, PartialEq, Eq, Structural, Debug)]
pub struct Fifo {
    pub raw: u8,
}

impl Fifo {
    /// The register value with the FIFOs enabled or disabled.
    pub fn with_enabled(enabled: bool) -> (r: Fifo)
        ensures
            r.raw == (if enabled {
                1u8
            } else {
                0u8
            }),
    {
        Fifo { raw: if enabled {
            1
        } else {
            0
        } }
    }
}

/// Word lengths the line-control register can select.
#[derive(Clone, Copy, PartialEq, Eq, Structural, Debug)]
pub enum WordLength {
    Five,
    Six,
    Seven,
    Eight,
}

impl WordLength {
    /// The two-bit encoding of this word length.
    pub fn raw_value(&self) -> (r: u8)
        ensures
            *self is Five ==> r == 0,
            *self is Six ==> r == 1,
            *self is Seven ==> r == 2,
            *self is Eight ==> r == 3,
    {
        match self {
            WordLength::Five => 0,
            WordLength::Six => 1,
            WordLength::Seven => 2,
            WordLength::Eight => 3,
        }
    }
}

/// The line-control register: the word length in bits 0..2, parity enable
/// in bit 3.
#[derive(Clone, Copy, PartialEq, Eq, Structural, Debug)]
pub struct LineControl {
    pub raw: u8,
}

impl LineControl {
    /// The register value for a word length and parity choice.
    pub fn encode(word_length: WordLength, parity_enable: bool) -> (r: LineControl)
        ensures
            r.raw < 16,
    {
        let w = word_length.raw_value();
        let p: u8 = if parity_enable {
            8
        } else {
            0
        };
        LineControl { raw: w + p }
    }
}

/// The line-status register: bit 0 says a byte is ready to read.
#[derive(Clone, Copy, PartialEq, Eq, Structural, Debug)]
pub struct LineStatus {
    pub raw: u8,
}

impl LineStatus {
    /// Whether a received byte waits in the data register.
    pub fn data_ready(&self) -> (r: bool)
        ensures
            r == (self.raw & 1 == 1),
    {
        proof {
            let v = self.raw;
            assert((v & 1 == 1) == !(v & 1 == 0)) by (bit_vector);
        }
        self.raw & 1 != 0
    }

    /// Whether a received byte was lost to an overrun.
    pub fn overrun_error(&self) -> (r: bool)
        ensures
            r == (self.raw & 2 == 2),
    {
        proof {
            let v = self.raw;
            assert((v & 2 == 2) == !(v & 2 == 0)) by (bit_vector);
        }
        self.raw & 2 != 0
    }
}

} // verus!

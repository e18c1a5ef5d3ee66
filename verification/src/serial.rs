//! The serial port (a 16550 UART at COM1): what has to be written to which
//! register to set it up, and when a byte may be sent.

use vstd::prelude::*;

verus! {

/// One write to an I/O port.
#[derive(Clone, Copy, Debug, PartialEq, Eq, Structural)]
pub struct PortWrite {
    pub port: u16,
    pub value: u8,
}

/// The serial port.
#[derive(Clone, Copy, Debug, PartialEq, Eq, Structural)]
pub struct Serial();

impl Serial {
    /// Base port: the transmitter holding register, and the low byte of
    /// the divisor while the divisor latch is open.
    pub const PORT: u16 = 0x3f8;

    /// Interrupt enable register, and the high byte of the divisor while
    /// the divisor latch is open.
    pub const IER: u16 = Serial::PORT + 1;

    /// FIFO control register.
    pub const FCR: u16 = Serial::PORT + 2;

    /// Line control register.
    pub const LCR: u16 = Serial::PORT + 3;

    /// Modem control register.
    pub const MCR: u16 = Serial::PORT + 4;

    /// Line status register.
    pub const LSR: u16 = Serial::PORT + 5;

    /// Bit of the line status register that says that the transmitter
    /// holding register is empty.
    pub const TRANSMIT_EMPTY: u8 = 0x20;

    /// The writes that set the port up, in order: open the divisor latch,
    /// set the divisor to 1 (115200 baud), switch interrupts off, close
    /// the latch with 8 data bits, no parity and one stop bit, enable and
    /// clear the FIFOs with a 14-byte threshold, and raise DTR, RTS and
    /// OUT2.
    pub open spec fn setup() -> Seq<PortWrite> {
        seq![
            PortWrite { port: Serial::LCR, value: 0x80 },
            PortWrite { port: Serial::PORT, value: 0x01 },
            PortWrite { port: Serial::IER, value: 0x00 },
            PortWrite { port: Serial::IER, value: 0x00 },
            PortWrite { port: Serial::LCR, value: 0x03 },
            PortWrite { port: Serial::FCR, value: 0xC7 },
            PortWrite { port: Serial::MCR, value: 0x0B },
        ]
    }

    /// Whether a line status of `status` lets a byte be sent.
    pub open spec fn ready(status: u8) -> bool {
        status & Serial::TRANSMIT_EMPTY != 0
    }

    /// The writes that set the port up.
    pub fn init_sequence() -> (writes: [PortWrite; 7])
        ensures
            writes@ == Self::setup(),
    {
        let writes = [
            PortWrite { port: Serial::LCR, value: 0x80 },
            PortWrite { port: Serial::PORT, value: 0x01 },
            PortWrite { port: Serial::PORT + 1, value: 0x00 },
            PortWrite { port: Serial::IER, value: 0x00 },
            PortWrite { port: Serial::LCR, value: 0x03 },
            PortWrite { port: Serial::FCR, value: 0xC7 },
            PortWrite { port: Serial::MCR, value: 0x0B },
        ];
        assert(writes@ =~= Self::setup());
        writes
    }

    /// What to do to send `byte` when the line status register reads
    /// `status`: the write that sends it, or `None` where the transmitter
    /// is still busy and the status has to be read again.
    pub fn tx(&self, status: u8, byte: u8) -> (write: Option<PortWrite>)
        ensures
            write == (if Self::ready(status) {
                Some(PortWrite { port: Serial::PORT, value: byte })
            } else {
                None
            }),
    {
        if status & Serial::TRANSMIT_EMPTY != 0 {
            Some(PortWrite { port: Serial::PORT, value: byte })
        } else {
            None
        }
    }
}

} // verus!

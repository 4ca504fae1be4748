//! Driver for the Microchip 25AA02E48, a 2 Kbit SPI EEPROM that holds a
//! factory-programmed EUI-48 MAC address.
//!
//! The driver owns a serial bus and a chip-select line. Each operation is one
//! transaction: select the chip, make one or more bus calls, deselect the chip
//! (also when a bus call failed), and return `Ok` or the error of the bus or
//! of the line.
//!
//! Every call that the driver makes on its two collaborators is recorded, with
//! its outcome, in a ghost history (`Eeprom25aa02e48::history`). The contracts
//! of the operations state that history exactly, so they say which bytes go on
//! the wire, in which order, and which error comes back. The bus and the line
//! keep records of their own (`Transceiver::calls`, `DigitalOutput::changes`),
//! and each operation also states that those records grow by exactly the calls
//! that its history grows by.
pub mod driver;
pub mod lemmas;
pub mod protocol;

pub use protocol::{
    BusCall, Event, Error, EUI48_BYTES, EUI48_MEMORY_ADDRESS, INSTRUCTION_READ,
    INSTRUCTION_WRITE, MAX_ADDR, PAGE_SIZE,
};
pub use driver::{DigitalOutput, Eeprom25aa02e48, Transceiver};

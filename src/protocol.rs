//! Protocol constants, the error type, and the model of a bus transaction.
use vstd::prelude::*;

verus! {

/// Read instruction.
pub const INSTRUCTION_READ: u8 = 0x03;

/// Write instruction.
pub const INSTRUCTION_WRITE: u8 = 0x02;

/// Number of bytes in an EUI-48 MAC address.
pub const EUI48_BYTES: usize = 6;

/// EEPROM memory address of the EUI-48 address.
pub const EUI48_MEMORY_ADDRESS: u8 = 0xFA;

/// EEPROM page size in bytes.
pub const PAGE_SIZE: usize = 16;

/// Maximum EEPROM address.
pub const MAX_ADDR: usize = 0xFF;

/// Error of a driver operation.
#[derive(Debug)]
pub enum Error<SpiError, PinError> {
    /// SPI bus error wrapper.
    Spi(SpiError),
    /// GPIO pin error wrapper.
    Pin(PinError),
}

/// A bus call that a transaction plans to make.
pub ghost enum BusCall {
    /// Send these bytes.
    Write(Seq<u8>),
    /// Clock these bytes out while the device's reply is clocked in.
    Transfer(Seq<u8>),
}

/// One call that the driver made on a collaborator, with its outcome.
pub ghost enum Event<SE, PE> {
    /// The chip-select line was driven low (chip selected).
    Select(Result<(), PE>),
    /// A bus call, with the bytes that it clocked in (none for a write).
    Bus { call: BusCall, outcome: Result<(), SE>, received: Seq<u8> },
    /// The chip-select line was driven high (chip released).
    Deselect(Result<(), PE>),
}

/// What a bus outcome becomes as the result of an operation.
pub open spec fn spi_result<SE, PE>(o: Result<(), SE>) -> Result<(), Error<SE, PE>> {
    match o {
        Ok(()) => Ok(()),
        Err(e) => Err(Error::Spi(e)),
    }
}

/// The bus calls of a read of `data.len()` bytes from `address`: the command
/// frame, then one exchange that clocks `data` out and the reply in.
pub open spec fn read_plan(address: u8, data: Seq<u8>) -> Seq<BusCall> {
    seq![BusCall::Write(seq![INSTRUCTION_READ, address]), BusCall::Transfer(data)]
}

/// The bus calls of a write of one byte: a single frame.
pub open spec fn write_byte_plan(address: u8, value: u8) -> Seq<BusCall> {
    seq![BusCall::Write(seq![INSTRUCTION_WRITE, address, value])]
}

/// The bus calls of a page write: the command frame, then the payload.
pub open spec fn write_page_plan(address: u8, data: Seq<u8>) -> Seq<BusCall> {
    seq![BusCall::Write(seq![INSTRUCTION_WRITE, address]), BusCall::Write(data)]
}

/// `evs` are the calls of `plan` made in order, each one only after the one
/// before it succeeded: all of them, or up to and including the first that
/// failed.
pub open spec fn bus_phase<SE, PE>(plan: Seq<BusCall>, evs: Seq<Event<SE, PE>>) -> bool {
    &&& 1 <= evs.len() <= plan.len()
    &&& forall|i: int| 0 <= i < evs.len() ==> (#[trigger] evs[i]) is Bus && evs[i]->call == plan[i]
    &&& forall|i: int| 0 <= i < evs.len() - 1 ==> (#[trigger] evs[i])->outcome is Ok
    &&& evs.len() < plan.len() ==> evs.last()->outcome is Err
}

/// `evs` is one transaction that carries out `plan`, and `r` is its result.
///
/// Either selecting the chip failed, and nothing else was done; or the chip
/// was selected, the bus phase ran, and the chip was deselected. A failed
/// deselect is reported even over a failed bus call; otherwise the outcome of
/// the last bus call is.
pub open spec fn transaction<SE, PE>(
    plan: Seq<BusCall>,
    evs: Seq<Event<SE, PE>>,
    r: Result<(), Error<SE, PE>>,
) -> bool {
    ||| {
        &&& evs.len() == 1
        &&& evs[0] is Select
        &&& evs[0]->Select_0 is Err
        &&& r == pin_result::<SE, PE>(evs[0]->Select_0)
    }
    ||| {
        &&& evs.len() >= 3
        &&& evs[0] is Select
        &&& evs[0]->Select_0 is Ok
        &&& bus_phase(plan, evs.subrange(1, evs.len() - 1))
        &&& evs.last() is Deselect
        &&& r == if evs.last()->Deselect_0 is Err {
            pin_result::<SE, PE>(evs.last()->Deselect_0)
        } else {
            spi_result::<SE, PE>(evs[evs.len() - 2]->outcome)
        }
    }
}

/// The events that were added to a history `before` to give `after`.
pub open spec fn added<A>(before: Seq<A>, after: Seq<A>) -> Seq<A> {
    after.subrange(before.len() as int, after.len() as int)
}

/// `after` is `before` followed by one transaction that carries out `plan`
/// with result `r`.
pub open spec fn performs<SE, PE>(
    before: Seq<Event<SE, PE>>,
    after: Seq<Event<SE, PE>>,
    plan: Seq<BusCall>,
    r: Result<(), Error<SE, PE>>,
) -> bool {
    &&& before.len() <= after.len()
    &&& after.subrange(0, before.len() as int) == before
    &&& transaction(plan, added(before, after), r)
}


/// What a chip-select outcome becomes as the result of an operation.
pub open spec fn pin_result<SE, PE>(o: Result<(), PE>) -> Result<(), Error<SE, PE>> {
    match o {
        Ok(()) => Ok(()),
        Err(e) => Err(Error::Pin(e)),
    }
}

/// The bus calls among the events of a transaction, in order, each as the
/// bus records it: the call, its outcome, the bytes it clocked in.
pub open spec fn bus_records<SE, PE>(evs: Seq<Event<SE, PE>>) -> Seq<(BusCall, Result<(), SE>, Seq<u8>)> {
    if evs.len() >= 3 {
        evs.subrange(1, evs.len() - 1).map_values(
            |e: Event<SE, PE>| (e->call, e->outcome, e->received),
        )
    } else {
        Seq::empty()
    }
}

/// The changes of the chip-select line among the events of a transaction, as
/// the line records them: the level asked for (`true` for high), the outcome.
pub open spec fn line_records<SE, PE>(evs: Seq<Event<SE, PE>>) -> Seq<(bool, Result<(), PE>)> {
    if evs.len() >= 3 {
        seq![(false, evs[0]->Select_0), (true, evs.last()->Deselect_0)]
    } else {
        seq![(false, evs[0]->Select_0)]
    }
}

} // verus!

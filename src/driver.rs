//! The transaction driver.
use vstd::prelude::*;

use crate::protocol::{
    added, bus_records, line_records, performs, pin_result, read_plan, write_byte_plan, write_page_plan, BusCall, Error, Event,
    EUI48_BYTES, EUI48_MEMORY_ADDRESS, INSTRUCTION_READ, INSTRUCTION_WRITE, MAX_ADDR, PAGE_SIZE,
};

verus! {

/// A serial bus that sends bytes and exchanges them full duplex.
///
/// An implementation keeps a record of the calls made on it: what each call
/// was given, its outcome, and the bytes it clocked in (none for a write).
pub trait Transceiver {
    /// Error of a bus call.
    type Error;

    /// The calls made on this bus so far, oldest first. An implementation
    /// that Verus checks overrides this with its own record: the empty
    /// default cannot meet the methods' `ensures`.
    closed spec fn calls(&self) -> Seq<(BusCall, Result<(), Self::Error>, Seq<u8>)> {
        Seq::empty()
    }

    /// Sends `words`.
    fn write(&mut self, words: &[u8]) -> (r: Result<(), Self::Error>)
        ensures
            final(self).calls() == old(self).calls().push((BusCall::Write(words@), r, Seq::empty())),
    ;

    /// Sends `words` and replaces them with the bytes received meanwhile.
    fn transfer(&mut self, words: &mut [u8]) -> (r: Result<(), Self::Error>)
        ensures
            final(words)@.len() == old(words)@.len(),
            final(self).calls() == old(self).calls().push(
                (BusCall::Transfer(old(words)@), r, final(words)@),
            ),
    ;
}

/// A digital output line.
///
/// An implementation keeps a record of the changes asked of it: the level
/// asked for (`true` for high) and the outcome.
pub trait DigitalOutput {
    /// Error of a change of the line.
    type Error;

    /// The changes asked of this line so far, oldest first. An
    /// implementation that Verus checks overrides this with its own record:
    /// the empty default cannot meet the methods' `ensures`.
    closed spec fn changes(&self) -> Seq<(bool, Result<(), Self::Error>)> {
        Seq::empty()
    }

    /// Drives the line low.
    fn set_low(&mut self) -> (r: Result<(), Self::Error>)
        ensures
            final(self).changes() == old(self).changes().push((false, r)),
    ;

    /// Drives the line high.
    fn set_high(&mut self) -> (r: Result<(), Self::Error>)
        ensures
            final(self).changes() == old(self).changes().push((true, r)),
    ;
}

/// Eeprom25aa02e48 driver.
pub struct Eeprom25aa02e48<SPI: Transceiver, CS: DigitalOutput> {
    /// SPI device.
    spi: SPI,
    /// GPIO for chip select.
    cs: CS,
    /// Every call made on `spi` and `cs`, in order.
    log: Ghost<Seq<Event<SPI::Error, CS::Error>>>,
}

impl<SPI: Transceiver, CS: DigitalOutput> Eeprom25aa02e48<SPI, CS> {
    /// The calls that this driver has made on its bus and its chip-select
    /// line, oldest first, each with its outcome.
    pub closed spec fn history(&self) -> Seq<Event<SPI::Error, CS::Error>> {
        self.log@
    }

    /// The bus that this driver owns.
    pub closed spec fn bus(&self) -> SPI {
        self.spi
    }

    /// The chip-select line that this driver owns.
    pub closed spec fn line(&self) -> CS {
        self.cs
    }

    /// The collaborators' own records grew by exactly the calls that the
    /// history grew by from `before`: the bus record by the bus calls, the
    /// line's record by the selects and deselects, each in order and with
    /// the same outcome.
    pub open spec fn records_follow(&self, before: &Self) -> bool {
        &&& self.bus().calls() == before.bus().calls() + bus_records(
            added(before.history(), self.history()),
        )
        &&& self.line().changes() == before.line().changes() + line_records(
            added(before.history(), self.history()),
        )
    }

    /// Creates a new driver from a SPI peripheral and a chip select digital
    /// output pin. Makes no call on either.
    pub fn new(spi: SPI, cs: CS) -> (r: Self)
        ensures
            r.history() == Seq::<Event<SPI::Error, CS::Error>>::empty(),
            r.bus() == spi,
            r.line() == cs,
    {
        Eeprom25aa02e48 { spi: spi, cs: cs, log: Ghost(Seq::empty()) }
    }

    /// Selects the chip (the line is active low) and records the call.
    fn chip_enable(&mut self) -> (r: Result<(), Error<SPI::Error, CS::Error>>)
        ensures
            final(self).history() == old(self).history().push(final(self).history().last()),
            final(self).history().last() is Select,
            r == pin_result::<SPI::Error, CS::Error>(final(self).history().last()->Select_0),
            final(self).bus() == old(self).bus(),
            final(self).line().changes() == old(self).line().changes().push(
                (false, final(self).history().last()->Select_0),
            ),
    {
        let o = self.cs.set_low();
        proof {
            self.log@ = self.log@.push(Event::Select(o));
        }
        match o {
            Ok(()) => Ok(()),
            Err(e) => Err(Error::Pin(e)),
        }
    }

    /// Releases the chip and records the call.
    fn chip_disable(&mut self) -> (r: Result<(), Error<SPI::Error, CS::Error>>)
        ensures
            final(self).history() == old(self).history().push(final(self).history().last()),
            final(self).history().last() is Deselect,
            r == pin_result::<SPI::Error, CS::Error>(final(self).history().last()->Deselect_0),
            final(self).bus() == old(self).bus(),
            final(self).line().changes() == old(self).line().changes().push(
                (true, final(self).history().last()->Deselect_0),
            ),
    {
        let o = self.cs.set_high();
        proof {
            self.log@ = self.log@.push(Event::Deselect(o));
        }
        match o {
            Ok(()) => Ok(()),
            Err(e) => Err(Error::Pin(e)),
        }
    }

    /// Sends `words` on the bus and records the call.
    fn bus_write(&mut self, words: &[u8]) -> (r: Result<(), SPI::Error>)
        ensures
            final(self).history() == old(self).history().push(
                Event::Bus { call: BusCall::Write(words@), outcome: r, received: Seq::empty() },
            ),
            final(self).bus().calls() == old(self).bus().calls().push(
                (BusCall::Write(words@), r, Seq::empty()),
            ),
            final(self).line() == old(self).line(),
    {
        let o = self.spi.write(words);
        proof {
            self.log@ = self.log@.push(
                Event::Bus { call: BusCall::Write(words@), outcome: o, received: Seq::empty() },
            );
        }
        o
    }

    /// Exchanges `words` on the bus and records the call.
    fn bus_transfer(&mut self, words: &mut [u8]) -> (r: Result<(), SPI::Error>)
        ensures
            final(self).history() == old(self).history().push(
                Event::Bus { call: BusCall::Transfer(old(words)@), outcome: r, received: final(words)@ },
            ),
            final(words)@.len() == old(words)@.len(),
            final(self).bus().calls() == old(self).bus().calls().push(
                (BusCall::Transfer(old(words)@), r, final(words)@),
            ),
            final(self).line() == old(self).line(),
    {
        let ghost sent = words@;
        let o = self.spi.transfer(words);
        proof {
            self.log@ = self.log@.push(
                Event::Bus { call: BusCall::Transfer(sent), outcome: o, received: words@ },
            );
        }
        o
    }

    /// Read from the EEPROM.
    /// The size of the `data` buffer determines the number of bytes read.
    ///
    /// Makes one transaction: the frame `[INSTRUCTION_READ, address]`, then
    /// one exchange of `data`, whose reply is left in `data`.
    pub fn read_data(&mut self, address: u8, data: &mut [u8]) -> (r: Result<
        (),
        Error<SPI::Error, CS::Error>,
    >)
        requires
            address + old(data)@.len() - 1 <= MAX_ADDR,
        ensures
            performs(old(self).history(), final(self).history(), read_plan(address, old(data)@), r),
            final(self).records_follow(old(self)),
            final(data)@.len() == old(data)@.len(),
            added(old(self).history(), final(self).history()).len() == 4 ==> final(data)@
                == added(old(self).history(), final(self).history())[2]->received,
            added(old(self).history(), final(self).history()).len() != 4 ==> final(data)@ == old(
                data,
            )@,
    {
        let ghost before = self.history();
        let ghost bus_before = self.bus().calls();
        let ghost line_before = self.line().changes();
        let cmd: [u8; 2] = [INSTRUCTION_READ, address];
        assert(cmd@ =~= seq![INSTRUCTION_READ, address]);
        let en = self.chip_enable();
        if let Err(e) = en {
            assert(added(before, self.history()) =~= seq![self.history().last()]);
            assert(self.history().subrange(0, before.len() as int) =~= before);
            assert(self.bus().calls() =~= bus_before + bus_records(added(before, self.history())));
            assert(self.line().changes() =~= line_before + line_records(
                added(before, self.history()),
            ));
            return Err(e);
        }
        let ghost sel = self.history().last();
        let mut result = match self.bus_write(&cmd) {
            Ok(()) => Ok(()),
            Err(e) => Err(Error::Spi(e)),
        };
        let ghost wrote = self.history().last();
        if result.is_ok() {
            result = match self.bus_transfer(data) {
                Ok(()) => Ok(()),
                Err(e) => Err(Error::Spi(e)),
            };
        }
        let ghost mid = self.history();
        let d = self.chip_disable();
        proof {
            let evs = added(before, self.history());
            if mid.len() == before.len() + 3 {
                assert(evs =~= seq![sel, wrote, mid.last(), self.history().last()]);
            } else {
                assert(evs =~= seq![sel, wrote, self.history().last()]);
            }
            assert(self.history().subrange(0, before.len() as int) =~= before);
            let evs = added(before, self.history());
            assert(self.bus().calls() =~= bus_before + bus_records(evs));
            assert(self.line().changes() =~= line_before + line_records(evs));
        }
        match d {
            Ok(()) => result,
            Err(e) => Err(e),
        }
    }

    /// Write a byte to the EEPROM.
    ///
    /// Makes one transaction with the single frame
    /// `[INSTRUCTION_WRITE, address, data]`.
    pub fn write_byte(&mut self, address: u8, data: u8) -> (r: Result<
        (),
        Error<SPI::Error, CS::Error>,
    >)
        ensures
            performs(old(self).history(), final(self).history(), write_byte_plan(address, data), r),
            final(self).records_follow(old(self)),
    {
        let ghost before = self.history();
        let ghost bus_before = self.bus().calls();
        let ghost line_before = self.line().changes();
        let cmd: [u8; 3] = [INSTRUCTION_WRITE, address, data];
        assert(cmd@ =~= seq![INSTRUCTION_WRITE, address, data]);
        let en = self.chip_enable();
        if let Err(e) = en {
            assert(added(before, self.history()) =~= seq![self.history().last()]);
            assert(self.history().subrange(0, before.len() as int) =~= before);
            assert(self.bus().calls() =~= bus_before + bus_records(added(before, self.history())));
            assert(self.line().changes() =~= line_before + line_records(
                added(before, self.history()),
            ));
            return Err(e);
        }
        let ghost sel = self.history().last();
        let result = match self.bus_write(&cmd) {
            Ok(()) => Ok(()),
            Err(e) => Err(Error::Spi(e)),
        };
        let ghost wrote = self.history().last();
        let d = self.chip_disable();
        proof {
            assert(added(before, self.history()) =~= seq![sel, wrote, self.history().last()]);
            assert(self.history().subrange(0, before.len() as int) =~= before);
            let evs = added(before, self.history());
            assert(self.bus().calls() =~= bus_before + bus_records(evs));
            assert(self.line().changes() =~= line_before + line_records(evs));
        }
        match d {
            Ok(()) => result,
            Err(e) => Err(e),
        }
    }

    /// Write a page to the EEPROM.
    ///
    /// *Note*: The address must be page aligned.
    ///
    /// Makes one transaction: the frame `[INSTRUCTION_WRITE, address]`, then
    /// the page in a second write.
    pub fn write_page(&mut self, address: u8, data: [u8; PAGE_SIZE]) -> (r: Result<
        (),
        Error<SPI::Error, CS::Error>,
    >)
        requires
            address as int % PAGE_SIZE as int == 0,
        ensures
            performs(old(self).history(), final(self).history(), write_page_plan(address, data@), r),
            final(self).records_follow(old(self)),
    {
        let ghost before = self.history();
        let ghost bus_before = self.bus().calls();
        let ghost line_before = self.line().changes();
        let cmd: [u8; 2] = [INSTRUCTION_WRITE, address];
        assert(cmd@ =~= seq![INSTRUCTION_WRITE, address]);
        let en = self.chip_enable();
        if let Err(e) = en {
            assert(added(before, self.history()) =~= seq![self.history().last()]);
            assert(self.history().subrange(0, before.len() as int) =~= before);
            assert(self.bus().calls() =~= bus_before + bus_records(added(before, self.history())));
            assert(self.line().changes() =~= line_before + line_records(
                added(before, self.history()),
            ));
            return Err(e);
        }
        let ghost sel = self.history().last();
        let mut result = self.bus_write(&cmd);
        let ghost wrote = self.history().last();
        if result.is_ok() {
            result = self.bus_write(&data);
        }
        let result = match result {
            Ok(()) => Ok(()),
            Err(e) => Err(Error::Spi(e)),
        };
        let ghost mid = self.history();
        let d = self.chip_disable();
        proof {
            let evs = added(before, self.history());
            if mid.len() == before.len() + 3 {
                assert(evs =~= seq![sel, wrote, mid.last(), self.history().last()]);
            } else {
                assert(evs =~= seq![sel, wrote, self.history().last()]);
            }
            assert(self.history().subrange(0, before.len() as int) =~= before);
            let evs = added(before, self.history());
            assert(self.bus().calls() =~= bus_before + bus_records(evs));
            assert(self.line().changes() =~= line_before + line_records(evs));
        }
        match d {
            Ok(()) => result,
            Err(e) => Err(e),
        }
    }

    /// Read the EUI-48 address from the EEPROM.
    ///
    /// The read of `EUI48_BYTES` bytes at `EUI48_MEMORY_ADDRESS`.
    pub fn read_eui48(&mut self, eui48: &mut [u8; EUI48_BYTES]) -> (r: Result<
        (),
        Error<SPI::Error, CS::Error>,
    >)
        ensures
            performs(
                old(self).history(),
                final(self).history(),
                read_plan(EUI48_MEMORY_ADDRESS, old(eui48)@),
                r,
            ),
            final(self).records_follow(old(self)),
            added(old(self).history(), final(self).history()).len() == 4 ==> final(eui48)@
                == added(old(self).history(), final(self).history())[2]->received,
            added(old(self).history(), final(self).history()).len() != 4 ==> final(eui48)@ == old(
                eui48,
            )@,
    {
        self.read_data(EUI48_MEMORY_ADDRESS, eui48)
    }
}

impl<SPI: Transceiver + Default, CS: DigitalOutput + Default> Default for Eeprom25aa02e48<SPI, CS> {
    /// A driver over the default bus and line. Makes no call on either.
    fn default() -> (r: Self)
        ensures
            r.history() == Seq::<Event<SPI::Error, CS::Error>>::empty(),
    {
        Eeprom25aa02e48::new(SPI::default(), CS::default())
    }
}

} // verus!

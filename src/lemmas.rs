//! Facts about every transaction that the driver makes.
use vstd::prelude::*;

use crate::protocol::{
    bus_records, line_records, read_plan, transaction, BusCall, Error, Event, INSTRUCTION_READ,
};

verus! {

/// The chip is selected once and released once per transaction: a
/// transaction whose select succeeded begins with that select, ends with a
/// deselect, and holds only bus calls between them. One whose select failed
/// holds nothing else. So the line's own record gains a drive low and then a
/// drive high, and the bus record gains only the calls between them.
pub proof fn lemma_select_brackets<SE, PE>(
    plan: Seq<BusCall>,
    evs: Seq<Event<SE, PE>>,
    r: Result<(), Error<SE, PE>>,
)
    requires
        transaction(plan, evs, r),
    ensures
        evs.len() >= 1,
        evs[0] is Select,
        evs[0]->Select_0 is Err ==> evs.len() == 1,
        evs[0]->Select_0 is Ok ==> {
            &&& evs.len() >= 3
            &&& evs.last() is Deselect
            &&& forall|i: int| 0 < i < evs.len() - 1 ==> #[trigger] evs[i] is Bus
            &&& line_records(evs).len() == 2
            &&& line_records(evs)[0].0 == false
            &&& line_records(evs)[1].0 == true
            &&& bus_records(evs).len() == evs.len() - 2
        },
        evs[0]->Select_0 is Err ==> {
            &&& line_records(evs) == seq![(false, evs[0]->Select_0)]
            &&& bus_records(evs).len() == 0
        },
{
    if evs[0]->Select_0 is Ok {
        let phase = evs.subrange(1, evs.len() - 1);
        assert forall|i: int| 0 < i < evs.len() - 1 implies #[trigger] evs[i] is Bus by {
            assert(phase[i - 1] == evs[i]);
        }
    }
}

/// A read of `data` at `address` in which the chip was selected and no bus
/// call failed issues exactly the frame `[INSTRUCTION_READ, address]` and then
/// exactly one exchange of `data.len()` bytes, both succeeding; these two are
/// what the bus records.
pub proof fn lemma_read_frames<SE, PE>(
    address: u8,
    data: Seq<u8>,
    evs: Seq<Event<SE, PE>>,
    r: Result<(), Error<SE, PE>>,
)
    requires
        transaction(read_plan(address, data), evs, r),
        evs[0]->Select_0 is Ok,
        evs[evs.len() - 2]->outcome is Ok,
    ensures
        evs.len() == 4,
        evs[1] is Bus,
        evs[1]->call == BusCall::Write(seq![INSTRUCTION_READ, address]),
        evs[1]->outcome is Ok,
        evs[2] is Bus,
        evs[2]->call == BusCall::Transfer(data),
        evs[2]->call->Transfer_0.len() == data.len(),
        evs[2]->outcome is Ok,
        evs[3] is Deselect,
        bus_records(evs) == seq![
            (BusCall::Write(seq![INSTRUCTION_READ, address]), evs[1]->outcome, evs[1]->received),
            (BusCall::Transfer(data), evs[2]->outcome, evs[2]->received),
        ],
{
    let phase = evs.subrange(1, evs.len() - 1);
    assert(phase[phase.len() - 1] == evs[evs.len() - 2]);
    assert(phase[0] == evs[1]);
    assert(phase.len() == 2);
    assert(phase[1] == evs[2]);
    assert(bus_records(evs) =~= seq![
        (BusCall::Write(seq![INSTRUCTION_READ, address]), evs[1]->outcome, evs[1]->received),
        (BusCall::Transfer(data), evs[2]->outcome, evs[2]->received),
    ]);
}

/// A failed deselect decides the result: the operation reports the
/// chip-select error, even where a bus call had failed before it.
pub proof fn lemma_deselect_failure_masks<SE, PE>(
    plan: Seq<BusCall>,
    evs: Seq<Event<SE, PE>>,
    r: Result<(), Error<SE, PE>>,
)
    requires
        transaction(plan, evs, r),
        evs.len() >= 2,
        evs.last() is Deselect,
        evs.last()->Deselect_0 is Err,
    ensures
        r == Err::<(), Error<SE, PE>>(Error::Pin(evs.last()->Deselect_0->Err_0)),
{
}

} // verus!

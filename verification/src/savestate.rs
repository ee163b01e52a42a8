//! Saved states: the snapshot of a run between two steps, its bytes, and
//! the way back from the bytes.
//!
//! A snapshot holds the tick, the ledger up to the tick and the state of
//! the engine, which is a run of bytes that only the engine reads. It is
//! kept under the name of its scenario and its tick.

use crate::clock::{Clock, Duration};
use crate::driver::{run, Driver, DriverView, Event, HaltCondition, Phase};
use crate::flags::{path_savestate, path_savestate_spec};
use crate::trip::{TripLedger, TripMode, TripRecord};
use vstd::bytes::{
    lemma_auto_spec_u64_to_from_le_bytes, spec_u64_from_le_bytes, spec_u64_to_le_bytes,
    u64_from_le_bytes, u64_to_le_bytes,
};
use vstd::prelude::*;
use vstd::slice::{slice_subrange, slice_to_vec};

verus! {

/// The number of bytes that one record takes.
pub const RECORD_BYTES: usize = 17;

/// A snapshot of a run.
#[derive(Debug)]
pub struct Savestate {
    /// The scenario that the run belongs to.
    pub scenario: String,
    /// The clock at which the state was taken.
    pub tick: Clock,
    /// The trips completed up to the tick, in completion order.
    pub ledger: Vec<TripRecord>,
    /// The state of the engine, as the engine wrote it.
    pub engine: Vec<u8>,
}

/// `Savestate` as a mathematical value.
pub struct SavestateView {
    pub scenario: Seq<char>,
    pub tick: Clock,
    pub ledger: Seq<TripRecord>,
    pub engine: Seq<u8>,
}

impl View for Savestate {
    type V = SavestateView;

    open spec fn view(&self) -> SavestateView {
        SavestateView {
            scenario: self.scenario@,
            tick: self.tick,
            ledger: self.ledger@,
            engine: self.engine@,
        }
    }
}

/// The four bytes that every saved state begins with.
pub open spec fn magic() -> Seq<u8> {
    seq![0x53u8, 0x41u8, 0x56u8, 0x45u8]
}

/// The mode that a byte stands for, if any.
pub open spec fn mode_at(index: u8) -> Option<TripMode> {
    if index == 0 {
        Some(TripMode::Walk)
    } else if index == 1 {
        Some(TripMode::Bike)
    } else if index == 2 {
        Some(TripMode::Transit)
    } else if index == 3 {
        Some(TripMode::Drive)
    } else {
        None
    }
}

/// The bytes of one record: the agent, the mode, the duration.
pub open spec fn record_bytes(record: TripRecord) -> Seq<u8> {
    spec_u64_to_le_bytes(record.agent) + seq![record.mode.index_spec() as u8]
        + spec_u64_to_le_bytes(record.duration.ticks)
}

/// The bytes of the records in a row.
pub open spec fn records_bytes(records: Seq<TripRecord>) -> Seq<u8>
    decreases records.len(),
{
    if records.len() == 0 {
        Seq::empty()
    } else {
        records_bytes(records.drop_last()) + record_bytes(records.last())
    }
}

/// The bytes of a snapshot: the magic, the tick, the number of records,
/// the records, the length of the engine's state, the engine's state.
/// Numbers take eight bytes, least significant first.
pub open spec fn encode_spec(tick: Clock, ledger: Seq<TripRecord>, engine: Seq<u8>) -> Seq<u8> {
    magic() + spec_u64_to_le_bytes(tick.ticks) + spec_u64_to_le_bytes(ledger.len() as u64)
        + records_bytes(ledger) + spec_u64_to_le_bytes(engine.len() as u64) + engine
}

/// The record that seventeen bytes write, if the mode among them is one.
pub open spec fn decode_record(bytes: Seq<u8>) -> Option<TripRecord> {
    match mode_at(bytes[8]) {
        Some(mode) => Some(
            TripRecord {
                agent: spec_u64_from_le_bytes(bytes.subrange(0, 8)),
                mode,
                duration: Duration { ticks: spec_u64_from_le_bytes(bytes.subrange(9, 17)) },
            },
        ),
        None => None,
    }
}

/// The `count` records that the first bytes write, if each of them is one.
pub open spec fn decode_records(bytes: Seq<u8>, count: nat) -> Option<Seq<TripRecord>>
    decreases count,
{
    if count == 0 {
        Some(Seq::empty())
    } else {
        let front = decode_records(bytes, (count - 1) as nat);
        let last = decode_record(bytes.subrange(17 * (count as int - 1), 17 * (count as int)));
        match (front, last) {
            (Some(records), Some(record)) => Some(records.push(record)),
            _ => None,
        }
    }
}

/// Why bytes are no snapshot.
#[derive(Clone, Copy, Debug, PartialEq, Eq, Structural)]
pub enum DecodeError {
    /// There are fewer bytes than the magic, the tick and the number of
    /// records take.
    TooShort,
    /// The bytes do not begin with the magic.
    BadMagic,
    /// The bytes end before the records and the length that follows them.
    Truncated,
    /// A record holds a mode that is none.
    BadMode,
    /// The engine's state is shorter or longer than its length says.
    LengthMismatch,
}

/// The snapshot that bytes write, under the name of its scenario, or why
/// they write none.
pub open spec fn decode_spec(scenario: Seq<char>, bytes: Seq<u8>) -> Result<
    SavestateView,
    DecodeError,
> {
    if bytes.len() < 20 {
        Err(DecodeError::TooShort)
    } else if bytes.subrange(0, 4) != magic() {
        Err(DecodeError::BadMagic)
    } else {
        let tick = spec_u64_from_le_bytes(bytes.subrange(4, 12));
        let count = spec_u64_from_le_bytes(bytes.subrange(12, 20)) as int;
        if bytes.len() < 28 + 17 * count {
            Err(DecodeError::Truncated)
        } else {
            let size = spec_u64_from_le_bytes(
                bytes.subrange(20 + 17 * count, 28 + 17 * count),
            ) as int;
            match decode_records(bytes.subrange(20, 20 + 17 * count), count as nat) {
                Some(ledger) => if bytes.len() == 28 + 17 * count + size {
                    Ok(
                        SavestateView {
                            scenario,
                            tick: Clock { ticks: tick },
                            ledger,
                            engine: bytes.subrange(28 + 17 * count, bytes.len() as int),
                        },
                    )
                } else {
                    Err(DecodeError::LengthMismatch)
                },
                None => Err(DecodeError::BadMode),
            }
        }
    }
}

/// The records take seventeen bytes each.
pub proof fn lemma_records_bytes_len(records: Seq<TripRecord>)
    ensures
        records_bytes(records).len() == 17 * records.len(),
    decreases records.len(),
{
    lemma_auto_spec_u64_to_from_le_bytes();
    if records.len() > 0 {
        lemma_records_bytes_len(records.drop_last());
    }
}

/// A record reads back from its bytes.
proof fn lemma_record_read_back(record: TripRecord)
    ensures
        record_bytes(record).len() == 17,
        decode_record(record_bytes(record)) == Some(record),
{
    lemma_auto_spec_u64_to_from_le_bytes();
    let bytes = record_bytes(record);
    assert(bytes.subrange(0, 8) =~= spec_u64_to_le_bytes(record.agent));
    assert(bytes.subrange(9, 17) =~= spec_u64_to_le_bytes(record.duration.ticks));
    assert(bytes[8] == record.mode.index_spec() as u8);
}

/// Bytes after the records do not change what the records read back as.
proof fn lemma_decode_records_prefix(bytes: Seq<u8>, longer: Seq<u8>, count: nat)
    requires
        17 * count <= bytes.len(),
        bytes.is_prefix_of(longer),
    ensures
        decode_records(longer, count) == decode_records(bytes, count),
    decreases count,
{
    if count > 0 {
        lemma_decode_records_prefix(bytes, longer, (count - 1) as nat);
        let n = count as int;
        assert(longer.subrange(17 * (n - 1), 17 * n) =~= bytes.subrange(17 * (n - 1), 17 * n));
    }
}

/// Records read back from their bytes.
proof fn lemma_records_read_back(records: Seq<TripRecord>)
    ensures
        decode_records(records_bytes(records), records.len()) == Some(records),
    decreases records.len(),
{
    if records.len() > 0 {
        let front = records.drop_last();
        let bytes = records_bytes(records);
        lemma_records_read_back(front);
        lemma_records_bytes_len(front);
        lemma_record_read_back(records.last());
        assert(records_bytes(front).is_prefix_of(bytes));
        lemma_decode_records_prefix(records_bytes(front), bytes, front.len());
        let n = records.len() as int;
        assert(bytes.subrange(17 * (n - 1), 17 * n) =~= record_bytes(records.last()));
        assert(front.push(records.last()) =~= records);
    }
}

/// Where the first records do not read back, no more of them do.
proof fn lemma_decode_records_fails(bytes: Seq<u8>, bad: nat, count: nat)
    requires
        bad <= count,
        decode_records(bytes, bad) is None,
    ensures
        decode_records(bytes, count) is None,
    decreases count,
{
    if bad < count {
        lemma_decode_records_fails(bytes, bad, (count - 1) as nat);
    }
}

/// A snapshot reads back from its bytes: decoding what was encoded gives
/// the tick, the ledger and the engine's state that went in.
pub proof fn lemma_decode_inverts_encode(state: SavestateView)
    requires
        state.ledger.len() <= u64::MAX,
        state.engine.len() <= u64::MAX,
    ensures
        decode_spec(state.scenario, encode_spec(state.tick, state.ledger, state.engine)) == Ok::<
            SavestateView,
            DecodeError,
        >(state),
{
    lemma_auto_spec_u64_to_from_le_bytes();
    lemma_records_bytes_len(state.ledger);
    lemma_records_read_back(state.ledger);
    let count = state.ledger.len() as int;
    let bytes = encode_spec(state.tick, state.ledger, state.engine);
    assert(bytes.len() == 28 + 17 * count + state.engine.len());
    assert(bytes.subrange(0, 4) =~= magic());
    assert(bytes.subrange(4, 12) =~= spec_u64_to_le_bytes(state.tick.ticks));
    assert(bytes.subrange(12, 20) =~= spec_u64_to_le_bytes(count as u64));
    assert(bytes.subrange(20, 20 + 17 * count) =~= records_bytes(state.ledger));
    assert(bytes.subrange(20 + 17 * count, 28 + 17 * count) =~= spec_u64_to_le_bytes(
        state.engine.len() as u64,
    ));
    assert(bytes.subrange(28 + 17 * count, bytes.len() as int) =~= state.engine);
}

/// The mode that a byte stands for, if any.
pub fn mode_from_byte(index: u8) -> (r: Option<TripMode>)
    ensures
        r == mode_at(index),
{
    if index == 0 {
        Some(TripMode::Walk)
    } else if index == 1 {
        Some(TripMode::Bike)
    } else if index == 2 {
        Some(TripMode::Transit)
    } else if index == 3 {
        Some(TripMode::Drive)
    } else {
        None
    }
}

/// A copy of the records.
pub fn copy_records(records: &Vec<TripRecord>) -> (r: Vec<TripRecord>)
    ensures
        r@ == records@,
{
    let mut out: Vec<TripRecord> = Vec::new();
    let mut i: usize = 0;
    while i < records.len()
        invariant
            i <= records.len(),
            out@ == records@.take(i as int),
        decreases records.len() - i,
    {
        out.push(records[i]);
        assert(records@.take(i + 1) =~= records@.take(i as int).push(records@[i as int]));
        i += 1;
    }
    assert(records@.take(records.len() as int) =~= records@);
    out
}

impl Savestate {
    /// The snapshot of a run as its driver holds it, with the state of the
    /// engine as the engine wrote it.
    pub fn capture(driver: &Driver, scenario: &str, engine: Vec<u8>) -> (r: Savestate)
        ensures
            r@ == (SavestateView {
                scenario: scenario@,
                tick: driver@.time,
                ledger: driver@.ledger,
                engine: engine@,
            }),
    {
        Savestate {
            scenario: scenario.to_owned(),
            tick: driver.time(),
            ledger: copy_records(driver.ledger().all()),
            engine,
        }
    }

    /// The driver that takes the run up from the snapshot.
    pub fn resume(&self, conditions: Vec<HaltCondition>, step: Duration) -> (r: Driver)
        ensures
            r@ == resumed(self@, conditions@, step),
    {
        Driver::resume(
            conditions,
            step,
            self.tick,
            TripLedger::from_records(copy_records(&self.ledger)),
        )
    }

    /// The path under which the snapshot is kept: its scenario, then its
    /// tick.
    pub fn path(&self) -> (r: String)
        ensures
            r@ == path_savestate_spec(self.scenario@, self.tick),
    {
        path_savestate(self.scenario.as_str(), self.tick)
    }

    /// Writes the snapshot as bytes.
    pub fn encode(&self) -> (r: Vec<u8>)
        ensures
            r@ == encode_spec(self.tick, self.ledger@, self.engine@),
    {
        let mut out: Vec<u8> = Vec::new();
        out.push(0x53);
        out.push(0x41);
        out.push(0x56);
        out.push(0x45);
        assert(out@ =~= magic());
        let mut tick = u64_to_le_bytes(self.tick.ticks);
        out.append(&mut tick);
        let mut count = u64_to_le_bytes(self.ledger.len() as u64);
        out.append(&mut count);
        let ghost head = out@;
        let mut i: usize = 0;
        assert(out@ =~= head + records_bytes(self.ledger@.take(0)));
        while i < self.ledger.len()
            invariant
                i <= self.ledger.len(),
                out@ == head + records_bytes(self.ledger@.take(i as int)),
            decreases self.ledger.len() - i,
        {
            let record = self.ledger[i];
            let mut agent = u64_to_le_bytes(record.agent);
            out.append(&mut agent);
            out.push(record.mode.index());
            let mut duration = u64_to_le_bytes(record.duration.ticks);
            out.append(&mut duration);
            proof {
                let longer = self.ledger@.take(i + 1);
                assert(longer.drop_last() =~= self.ledger@.take(i as int));
                assert(longer.last() == record);
                assert(out@ =~= head + records_bytes(longer));
            }
            i += 1;
        }
        assert(self.ledger@.take(self.ledger.len() as int) =~= self.ledger@);
        let mut size = u64_to_le_bytes(self.engine.len() as u64);
        out.append(&mut size);
        let ghost front = out@;
        let mut j: usize = 0;
        assert(out@ =~= front + self.engine@.take(0));
        while j < self.engine.len()
            invariant
                j <= self.engine.len(),
                out@ == front + self.engine@.take(j as int),
            decreases self.engine.len() - j,
        {
            out.push(self.engine[j]);
            assert(self.engine@.take(j + 1) =~= self.engine@.take(j as int).push(
                self.engine@[j as int],
            ));
            j += 1;
        }
        assert(self.engine@.take(self.engine.len() as int) =~= self.engine@);
        assert(out@ =~= encode_spec(self.tick, self.ledger@, self.engine@));
        out
    }

    /// Reads a snapshot of the named scenario from bytes, or says why the
    /// bytes write none.
    pub fn decode(scenario: &str, bytes: &[u8]) -> (r: Result<Savestate, DecodeError>)
        ensures
            match decode_spec(scenario@, bytes@) {
                Ok(state) => r is Ok && r->Ok_0@ == state,
                Err(error) => r is Err && r->Err_0 == error,
            },
    {
        let len = bytes.len();
        if len < 20 {
            return Err(DecodeError::TooShort);
        }
        if bytes[0] != 0x53 || bytes[1] != 0x41 || bytes[2] != 0x56 || bytes[3] != 0x45 {
            assert(bytes@.subrange(0, 4)[0] == bytes@[0]);
            assert(bytes@.subrange(0, 4)[1] == bytes@[1]);
            assert(bytes@.subrange(0, 4)[2] == bytes@[2]);
            assert(bytes@.subrange(0, 4)[3] == bytes@[3]);
            return Err(DecodeError::BadMagic);
        }
        assert(bytes@.subrange(0, 4) =~= magic());
        let tick = u64_from_le_bytes(slice_subrange(bytes, 4, 12));
        let count = u64_from_le_bytes(slice_subrange(bytes, 12, 20));
        if len < 28 || count > ((len - 28) / RECORD_BYTES) as u64 {
            return Err(DecodeError::Truncated);
        }
        let count: usize = count as usize;
        let ghost region = bytes@.subrange(20, 20 + 17 * (count as int));
        let mut ledger: Vec<TripRecord> = Vec::new();
        let mut i: usize = 0;
        while i < count
            invariant
                i <= count,
                len == bytes@.len(),
                28 + 17 * count <= len,
                bytes@.subrange(0, 4) == magic(),
                count == spec_u64_from_le_bytes(bytes@.subrange(12, 20)),
                region == bytes@.subrange(20, 20 + 17 * (count as int)),
                decode_records(region, i as nat) == Some(ledger@),
            decreases count - i,
        {
            let at = 20 + RECORD_BYTES * i;
            let agent = u64_from_le_bytes(slice_subrange(bytes, at, at + 8));
            let mode = mode_from_byte(bytes[at + 8]);
            let ticks = u64_from_le_bytes(slice_subrange(bytes, at + 9, at + 17));
            proof {
                let piece = region.subrange(17 * (i as int), 17 * (i as int + 1));
                assert(piece.subrange(0, 8) =~= bytes@.subrange(at as int, at + 8));
                assert(piece.subrange(9, 17) =~= bytes@.subrange(at + 9, at + 17));
                assert(piece[8] == bytes@[at + 8]);
            }
            match mode {
                Some(mode) => {
                    ledger.push(TripRecord { agent, mode, duration: Duration { ticks } });
                },
                None => {
                    proof {
                        let piece = region.subrange(17 * (i as int), 17 * (i as int + 1));
                        assert(piece[8] == bytes@[at + 8]);
                        assert(decode_record(piece) is None);
                        assert(decode_records(region, (i + 1) as nat) is None);
                        lemma_decode_records_fails(region, (i + 1) as nat, count as nat);
                    }
                    return Err(DecodeError::BadMode);
                },
            }
            i += 1;
        }
        let after = 20 + RECORD_BYTES * count;
        let size = u64_from_le_bytes(slice_subrange(bytes, after, after + 8));
        if size != (len - (after + 8)) as u64 {
            return Err(DecodeError::LengthMismatch);
        }
        let engine = slice_to_vec(slice_subrange(bytes, after + 8, len));
        Ok(Savestate { scenario: scenario.to_owned(), tick: Clock { ticks: tick }, ledger, engine })
    }
}

/// The driver that takes a run up from a snapshot: the clock and the
/// ledger as they were saved, a step awaited.
pub open spec fn resumed(state: SavestateView, conditions: Seq<HaltCondition>, step: Duration)
    -> DriverView {
    DriverView { conditions, step, time: state.tick, ledger: state.ledger, phase: Phase::Stepping }
}

/// The snapshot of a run as its driver holds it.
pub open spec fn captured(d: DriverView, scenario: Seq<char>, engine: Seq<u8>) -> SavestateView {
    SavestateView { scenario, tick: d.time, ledger: d.ledger, engine }
}

/// A run that is saved, read back and taken up goes on as the run that
/// was never stopped: the bytes of the snapshot read back as the snapshot,
/// and from there the same events lead to the same clock and the same
/// ledger as they do from the state that was saved.
pub proof fn lemma_savestate_fidelity(
    saved: DriverView,
    scenario: Seq<char>,
    engine: Seq<u8>,
    conditions: Seq<HaltCondition>,
    step: Duration,
    rest: Seq<Event>,
)
    requires
        saved.ledger.len() <= u64::MAX,
        engine.len() <= u64::MAX,
    ensures
        decode_spec(scenario, encode_spec(saved.time, saved.ledger, engine)) == Ok::<
            SavestateView,
            DecodeError,
        >(captured(saved, scenario, engine)),
        run(resumed(captured(saved, scenario, engine), conditions, step), rest) == run(
            DriverView { conditions, step, phase: Phase::Stepping, ..saved },
            rest,
        ),
{
    lemma_decode_inverts_encode(captured(saved, scenario, engine));
}

} // verus!

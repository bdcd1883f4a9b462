//! The driver and the values that it is set up with and reports.

use crate::error::Error;
pub use crate::state::{Action, Event, Job, Reply, Stage, State, Task};
use crate::state::identified;
use vstd::prelude::*;
use vstd::slice::slice_subrange;

verus! {

/// The first byte of every identification record.
pub const VENDOR_SIGNATURE: u8 = 0x0D;

/// The status byte of a device that has passed all its tests.
pub const KNOWN_GOOD: u8 = 0x5D;

/// The number of bytes that an identification record must have.
pub const ID_RECORD_LEN: usize = 10;

/// The number of bytes at the start of the answer to `ReadId` that come
/// before the identification record: the echo of the command and the
/// device's latency.
pub const ID_LATENCY: usize = 4;

/// Device identification and known-good flag.
#[derive(Debug, Clone, Copy, PartialEq, Eq, Structural)]
pub struct Identification {
    /// The 48-bit EID of the device. The upper 16 bits are zero.
    pub eid: u64,
    /// True only if the device has passed all its tests.
    pub known_good_device: bool,
}

/// The EID in an identification record: bytes 2 to 7, the most significant
/// first.
pub open spec fn eid_of(record: Seq<u8>) -> u64
    recommends
        record.len() >= 8,
{
    (record[2] * 0x100_0000_0000 + record[3] * 0x1_0000_0000 + record[4] * 0x100_0000 + record[5]
        * 0x1_0000 + record[6] * 0x100 + record[7]) as u64
}

impl Identification {
    /// What an identification record holds. A record is refused if it has
    /// fewer than 10 bytes or does not start with the vendor signature.
    pub open spec fn parse(record: Seq<u8>) -> Option<Identification> {
        if record.len() >= ID_RECORD_LEN && record[0] == VENDOR_SIGNATURE {
            Some(
                Identification {
                    eid: eid_of(record),
                    known_good_device: record[1] == KNOWN_GOOD,
                },
            )
        } else {
            None
        }
    }

    /// `parse`, with a refusal as the error that the driver reports for it.
    pub open spec fn parsed<S, G>(record: Seq<u8>) -> Result<Identification, Error<S, G>> {
        match Self::parse(record) {
            Some(id) => Ok(id),
            None => Err(Error::InvalidDevice),
        }
    }

    /// Builds an `Identification` from the bytes of an identification
    /// record.
    pub fn from_bytes<S, G>(buf: &[u8]) -> (result: Result<Identification, Error<S, G>>)
        ensures
            result == Self::parsed::<S, G>(buf@),
    {
        if buf.len() < ID_RECORD_LEN {
            return Err(Error::InvalidDevice);
        }
        if buf[0] != VENDOR_SIGNATURE {
            return Err(Error::InvalidDevice);
        }
        let known_good = buf[1] == KNOWN_GOOD;
        let eid: u64 = (buf[2] as u64) * 0x100_0000_0000 + (buf[3] as u64) * 0x1_0000_0000 + (
        buf[4] as u64) * 0x100_0000 + (buf[5] as u64) * 0x1_0000 + (buf[6] as u64) * 0x100
            + buf[7] as u64;
        Ok(Identification { eid, known_good_device: known_good })
    }
}

/// The clock frequency class that the device is run at.
#[derive(Debug, Clone, Copy, PartialEq, Eq, Structural)]
pub enum Freq {
    /// 33 MHz. Bursts may cross page boundaries, with no limit on length.
    ThreeThree,
    /// 84 MHz. Bursts may cross page boundaries.
    EightyFour,
    /// At most 104 MHz (3V3). Bursts may not cross page boundaries.
    OneZeroFour,
    /// At most 133 MHz (3V3). Bursts may not cross page boundaries.
    OneThreeThree,
    /// At most 144 MHz (1V8). Bursts may not cross page boundaries.
    OneFourFour,
}

/// The burst length that the device is set to.
#[derive(Debug, Clone, Copy, PartialEq, Eq, Structural)]
pub enum BurstLength {
    /// No limit, at 33 MHz. Bursts may cross page boundaries.
    Unrestricted,
    /// Bursts of 32 bytes, which wrap within a page.
    ThirtyTwoByte,
    /// Bursts of one kilobyte. Bursts may cross page boundaries.
    OneKByte,
}

/// Works out what the answer to `ReadId` amounts to.
fn identify<S, G>(answer: &Vec<u8>) -> (verdict: Result<Reply, Error<S, G>>)
    ensures
        verdict == identified::<S, G>(answer@),
{
    let bytes = answer.as_slice();
    let record = if bytes.len() >= ID_LATENCY {
        slice_subrange(bytes, ID_LATENCY, bytes.len())
    } else {
        slice_subrange(bytes, 0, 0)
    };
    assert(bytes@.len() < ID_LATENCY ==> record@ =~= Seq::<u8>::empty());
    match Identification::from_bytes::<S, G>(record) {
        Ok(id) => Ok(Reply::Identified(id)),
        Err(refusal) => Err(refusal),
    }
}

/// Driver for ESP SPI pseudo SRAM chips.
///
/// The driver does not touch the bus. Each operation starts with a call
/// that returns the first `Action`; the caller performs it and reports its
/// outcome to `advance`, which returns the next, until the action is
/// `Action::Done`. One operation runs at a time.
///
/// # Type Parameters
///
/// * **`S`**: The error type of the SPI master to which the chip is
///   attached.
/// * **`G`**: The error type of the chip-select line attached to the
///   `\CS`/`\CE` pin of the chip.
#[derive(Debug)]
pub struct PSRAM<S, G> {
    state: State<S, G>,
}

impl<S, G> View for PSRAM<S, G> {
    type V = State<S, G>;

    closed spec fn view(&self) -> State<S, G> {
        self.state
    }
}

impl<S, G> PSRAM<S, G> {
    /// Creates a new PSRAM driver.
    ///
    /// Only the 33 MHz frequency class is supported: any other is refused
    /// with `Error::InvalidMode`, whatever the burst length. The device is
    /// taken to be in its power-on mode. For a burst length of 32 bytes the
    /// driver therefore starts with the task of toggling the burst mode, and
    /// the first action of that task is returned with it; the burst length
    /// is recorded once that task has succeeded.
    ///
    /// # Parameters
    ///
    /// * **`freq`**: The maximum frequency that the device is run at.
    /// * **`burst_length`**: The maximum payload size.
    pub fn init(freq: Freq, burst_length: BurstLength) -> (result: Result<
        (Self, Action<S, G>),
        Error<S, G>,
    >)
        ensures
            match result {
                Ok((driver, action)) => {
                    &&& freq == Freq::ThreeThree
                    &&& (driver@, action) == State::<S, G>::fresh().request_burst(burst_length)
                    &&& driver@.wf()
                },
                Err(refusal) => freq != Freq::ThreeThree && refusal == Error::<S, G>::InvalidMode,
            },
    {
        if freq != Freq::ThreeThree {
            return Err(Error::InvalidMode);
        }
        let mut driver = PSRAM {
            state: State {
                freq,
                burst_length: BurstLength::Unrestricted,
                job: None,
                verdict: Ok(Reply::Completed),
            },
        };
        let action = driver.set_burst(burst_length);
        Ok((driver, action))
    }

    /// The frequency class that the driver was made for.
    pub fn freq(&self) -> (freq: Freq)
        ensures
            freq == self@.freq,
    {
        self.state.freq
    }

    /// The burst length that the device is set to.
    pub fn burst_length(&self) -> (burst_length: BurstLength)
        ensures
            burst_length == self@.burst_length,
    {
        self.state.burst_length
    }

    /// Whether no operation is in progress.
    pub fn is_idle(&self) -> (idle: bool)
        ensures
            idle == self@.idle(),
    {
        self.state.job.is_none()
    }

    /// Whether `event` is the outcome of the action that the driver asked
    /// for last.
    pub fn awaits(&self, event: &Event<S, G>) -> (awaited: bool)
        ensures
            awaited == self@.awaits(*event),
    {
        match self.state.job {
            None => false,
            Some(job) => match event {
                Event::Selected(_) => matches!(job.stage, Stage::Selecting),
                Event::Commanded(_) => matches!(job.stage, Stage::Commanding),
                Event::Transferred(_) => matches!(job.stage, Stage::Transferring),
                Event::Deselected(_) => matches!(job.stage, Stage::Deselecting),
            },
        }
    }

    /// Takes up a task.
    fn begin(&mut self, task: Task) -> (action: Action<S, G>)
        requires
            old(self)@.wf(),
            old(self)@.idle(),
        ensures
            (final(self)@, action) == old(self)@.begin(task),
            final(self)@.wf(),
    {
        if task.count_exchanges() == 0 {
            Action::Done(Ok(Reply::Completed))
        } else {
            self.state.job = Some(Job { task, index: 0, stage: Stage::Selecting });
            Action::Select
        }
    }

    /// Starts to set the burst length.
    ///
    /// The toggle command is sent if and only if the device has to change
    /// between its 32-byte mode and its other mode. The new burst length is
    /// recorded only once that command has been exchanged and the device
    /// released without a failure. Where no command is needed the burst
    /// length is recorded at once and the operation is over.
    pub fn set_burst(&mut self, burst: BurstLength) -> (action: Action<S, G>)
        requires
            old(self)@.wf(),
            old(self)@.idle(),
        ensures
            (final(self)@, action) == old(self)@.request_burst(burst),
            final(self)@.wf(),
    {
        let now_short = matches!(self.state.burst_length, BurstLength::ThirtyTwoByte);
        let then_short = matches!(burst, BurstLength::ThirtyTwoByte);
        if now_short != then_short {
            self.begin(Task::SetBurst(burst))
        } else {
            self.state.burst_length = burst;
            Action::Done(Ok(Reply::Completed))
        }
    }

    /// Starts to read the manufacturer and device identification. The
    /// operation ends with `Reply::Identified`, or with
    /// `Error::InvalidDevice` where the device's answer is no valid
    /// identification record.
    pub fn read_id(&mut self) -> (action: Action<S, G>)
        requires
            old(self)@.wf(),
            old(self)@.idle(),
        ensures
            (final(self)@, action) == old(self)@.begin(Task::ReadId),
            final(self)@.wf(),
    {
        self.begin(Task::ReadId)
    }

    /// Starts to reset the device: the reset is armed in one exchange and
    /// carried out in a second one.
    pub fn reset(&mut self) -> (action: Action<S, G>)
        requires
            old(self)@.wf(),
            old(self)@.idle(),
        ensures
            (final(self)@, action) == old(self)@.begin(Task::Reset),
            final(self)@.wf(),
    {
        self.begin(Task::Reset)
    }

    /// Starts to read one byte from `address`, into a buffer of one byte.
    pub fn read(&mut self, address: u32) -> (action: Action<S, G>)
        requires
            old(self)@.wf(),
            old(self)@.idle(),
        ensures
            (final(self)@, action) == old(self)@.begin(Task::Read { address, len: 1 }),
            final(self)@.wf(),
    {
        self.read_slice(address, 1)
    }

    /// Starts to read `len` bytes from `address` on, into a buffer of `len`
    /// bytes. The whole buffer is read in one exchange.
    pub fn read_slice(&mut self, address: u32, len: usize) -> (action: Action<S, G>)
        requires
            old(self)@.wf(),
            old(self)@.idle(),
        ensures
            (final(self)@, action) == old(self)@.begin(Task::Read { address, len }),
            final(self)@.wf(),
    {
        self.begin(Task::Read { address, len })
    }

    /// Starts to write one byte at `address`, from a buffer of one byte.
    pub fn write(&mut self, address: u32) -> (action: Action<S, G>)
        requires
            old(self)@.wf(),
            old(self)@.idle(),
        ensures
            (final(self)@, action) == old(self)@.begin(Task::Write { address, len: 1 }),
            final(self)@.wf(),
    {
        self.write_slice(address, 1)
    }

    /// Starts to write a buffer of `len` bytes from `address` on. The buffer
    /// is written in chunks of at most 256 bytes, one exchange each. The
    /// first failure ends the operation: the chunks before it stay written.
    pub fn write_slice(&mut self, address: u32, len: usize) -> (action: Action<S, G>)
        requires
            old(self)@.wf(),
            old(self)@.idle(),
        ensures
            (final(self)@, action) == old(self)@.begin(Task::Write { address, len }),
            final(self)@.wf(),
    {
        self.begin(Task::Write { address, len })
    }

    /// Starts to release the device after an exchange.
    fn release(&mut self, verdict: Result<Reply, Error<S, G>>) -> (action: Action<S, G>)
        requires
            old(self)@.job is Some,
        ensures
            (final(self)@, action) == old(self)@.release(verdict),
    {
        let job = self.state.job.unwrap();
        self.state.job = Some(Job { task: job.task, index: job.index, stage: Stage::Deselecting });
        self.state.verdict = verdict;
        Action::Deselect
    }

    /// Ends the operation.
    fn finish(&mut self, result: Result<Reply, Error<S, G>>) -> (action: Action<S, G>)
        ensures
            (final(self)@, action) == old(self)@.finish(result),
    {
        if let Some(job) = self.state.job {
            if let Task::SetBurst(burst) = job.task {
                if result.is_ok() {
                    self.state.burst_length = burst;
                }
            }
        }
        self.state.job = None;
        self.state.verdict = Ok(Reply::Completed);
        Action::Done(result)
    }

    /// Takes the outcome of the action that the driver asked for last, and
    /// returns the action that it asks for next. A payload that it asks for
    /// lies within the buffer of the operation.
    pub fn advance(&mut self, event: Event<S, G>) -> (action: Action<S, G>)
        requires
            old(self)@.wf(),
            old(self)@.awaits(event),
        ensures
            (final(self)@, action) == old(self)@.step(event),
            final(self)@.wf(),
            action matches Action::Payload { start, end } ==> start <= end <= old(
                self,
            )@.job->0.task.buffer_len(),
    {
        let job = self.state.job.unwrap();
        match event {
            Event::Selected(Ok(_)) => {
                self.state.job = Some(
                    Job { task: job.task, index: job.index, stage: Stage::Commanding },
                );
                Action::Command(job.task.command_of(job.index))
            },
            Event::Selected(Err(fault)) => self.finish(Err(Error::Gpio(fault))),
            Event::Commanded(Ok(answer)) => {
                if matches!(job.task, Task::ReadId) {
                    let verdict = identify(&answer);
                    self.release(verdict)
                } else {
                    match job.task.payload_of(job.index) {
                        Some((start, end)) => {
                            self.state.job = Some(
                                Job {
                                    task: job.task,
                                    index: job.index,
                                    stage: Stage::Transferring,
                                },
                            );
                            Action::Payload { start, end }
                        },
                        None => self.release(Ok(Reply::Completed)),
                    }
                }
            },
            Event::Commanded(Err(fault)) => self.release(Err(Error::Spi(fault))),
            Event::Transferred(Ok(_)) => self.release(Ok(Reply::Completed)),
            Event::Transferred(Err(fault)) => self.release(Err(Error::Spi(fault))),
            Event::Deselected(Err(fault)) => self.finish(Err(Error::Gpio(fault))),
            Event::Deselected(Ok(_)) => {
                let mut verdict: Result<Reply, Error<S, G>> = Ok(Reply::Completed);
                core::mem::swap(&mut self.state.verdict, &mut verdict);
                if verdict.is_err() || job.index + 1 == job.task.count_exchanges() {
                    self.finish(verdict)
                } else {
                    self.state.job = Some(
                        Job { task: job.task, index: job.index + 1, stage: Stage::Selecting },
                    );
                    Action::Select
                }
            },
        }
    }

    /// The address at which the memory starts.
    pub fn start_address(&self) -> (address: u32)
        ensures
            address == 0,
    {
        0
    }

    /// The size of the memory in bytes: 8 MiB.
    pub fn total_size(&self) -> (size: u32)
        ensures
            size == 8388608,
    {
        8388608
    }

    /// The size of a page in bytes: 1 KiB.
    pub fn page_size(&self) -> (size: u32)
        ensures
            size == 1024,
    {
        1024
    }
}

} // verus!

//! The states of the driver: the operations, the exchanges that each is made
//! of, and the order in which the chip-select line and the bus are used.
//!
//! An operation is a number of exchanges. In each the device is selected,
//! the command is exchanged, then the payload where there is one, and the
//! device is released. The driver asks for one of these actions at a time
//! and is told of its outcome by an event.

use crate::error::Error;
use crate::psram::{BurstLength, Freq, Identification, ID_LATENCY};
use crate::wire::{
    address_of_chunk, chunk_address, chunk_count, chunk_end, chunk_range, chunk_start,
    count_chunks, Command,
};
use vstd::prelude::*;

verus! {

/// What the driver hands back when an operation has run to its end.
#[derive(Debug, Clone, Copy, PartialEq, Eq, Structural)]
pub enum Reply {
    /// The operation is complete and has nothing more to report.
    Completed,
    /// The identification record that the device sent.
    Identified(Identification),
}

/// An operation that uses the bus.
#[derive(Debug, Clone, Copy, PartialEq, Eq, Structural)]
pub enum Task {
    /// Toggle the device's burst mode, to arrive at the given burst length.
    SetBurst(BurstLength),
    /// Read the identification record.
    ReadId,
    /// Reset the device.
    Reset,
    /// Read `len` bytes from `address` on, into the caller's buffer.
    Read { address: u32, len: usize },
    /// Write the `len` bytes of the caller's buffer from `address` on.
    Write { address: u32, len: usize },
}

impl Task {
    /// The number of exchanges that the task is made of. An exchange is what
    /// happens between one selection of the device and its release.
    pub open spec fn exchanges(self) -> nat {
        match self {
            Task::SetBurst(_) => 1,
            Task::ReadId => 1,
            Task::Reset => 2,
            Task::Read { .. } => 1,
            Task::Write { len, .. } => chunk_count(len as nat),
        }
    }

    /// The command that opens exchange `i`.
    pub open spec fn command(self, i: nat) -> Command {
        match self {
            Task::SetBurst(_) => Command::SetBurstLength,
            Task::ReadId => Command::ReadId,
            Task::Reset => if i == 0 {
                Command::ResetEnable
            } else {
                Command::Reset
            },
            Task::Read { address, .. } => Command::Read(address),
            Task::Write { address, .. } => Command::Write(chunk_address(address, i)),
        }
    }

    /// The part of the caller's buffer that is exchanged after the command
    /// of exchange `i`, as the offsets of its start and its end, where the
    /// task has a payload.
    pub open spec fn payload(self, i: nat) -> Option<(nat, nat)> {
        match self {
            Task::Read { len, .. } => Some((0, len as nat)),
            Task::Write { len, .. } => Some((chunk_start(i), chunk_end(len as nat, i))),
            _ => None,
        }
    }

    /// The length of the caller's buffer that the task works on.
    pub open spec fn buffer_len(self) -> nat {
        match self {
            Task::Read { len, .. } | Task::Write { len, .. } => len as nat,
            _ => 0,
        }
    }

    /// Computes `exchanges`.
    pub fn count_exchanges(&self) -> (count: usize)
        ensures
            count == self.exchanges(),
    {
        match self {
            Task::Reset => 2,
            Task::Write { len, .. } => count_chunks(*len),
            _ => 1,
        }
    }

    /// Computes `command`.
    pub fn command_of(&self, i: usize) -> (command: Command)
        ensures
            command == self.command(i as nat),
    {
        match self {
            Task::SetBurst(_) => Command::SetBurstLength,
            Task::ReadId => Command::ReadId,
            Task::Reset => if i == 0 {
                Command::ResetEnable
            } else {
                Command::Reset
            },
            Task::Read { address, .. } => Command::Read(*address),
            Task::Write { address, .. } => Command::Write(address_of_chunk(*address, i)),
        }
    }

    /// Computes `payload`.
    pub fn payload_of(&self, i: usize) -> (range: Option<(usize, usize)>)
        requires
            i < self.exchanges(),
        ensures
            match range {
                Some((start, end)) => self.payload(i as nat) == Some((start as nat, end as nat)),
                None => self.payload(i as nat) is None,
            },
    {
        match self {
            Task::Read { len, .. } => Some((0, *len)),
            Task::Write { len, .. } => Some(chunk_range(*len, i)),
            _ => None,
        }
    }
}

/// Where the driver stands within an exchange: what it has asked for and
/// waits to hear of.
#[derive(Debug, Clone, Copy, PartialEq, Eq, Structural)]
pub enum Stage {
    /// The chip-select line is being driven low.
    Selecting,
    /// The command frame is being exchanged.
    Commanding,
    /// The payload is being exchanged.
    Transferring,
    /// The chip-select line is being driven high.
    Deselecting,
}

impl Stage {
    /// The place of the stage in the order of an exchange.
    pub open spec fn ordinal(self) -> nat {
        match self {
            Stage::Selecting => 0,
            Stage::Commanding => 1,
            Stage::Transferring => 2,
            Stage::Deselecting => 3,
        }
    }
}

/// The operation in progress and how far it has come.
#[derive(Debug, Clone, Copy, PartialEq, Eq, Structural)]
pub struct Job {
    /// The operation.
    pub task: Task,
    /// The exchange that is under way.
    pub index: usize,
    /// The stage of that exchange.
    pub stage: Stage,
}

/// What the driver asks its caller to do next.
#[derive(Debug, PartialEq, Eq)]
pub enum Action<S, G> {
    /// Drive the chip-select line low.
    Select,
    /// Exchange the frame of this command with the device, in one duplex
    /// transfer.
    Command(Command),
    /// Exchange the bytes from offset `start` up to, not including, offset
    /// `end` of the caller's buffer with the device, in one duplex transfer.
    Payload { start: usize, end: usize },
    /// Drive the chip-select line high.
    Deselect,
    /// Nothing: the operation has ended, with this result.
    Done(Result<Reply, Error<S, G>>),
}

/// How the action that the driver asked for went.
#[derive(Debug, PartialEq, Eq)]
pub enum Event<S, G> {
    /// The outcome of `Action::Select`.
    Selected(Result<(), G>),
    /// The outcome of `Action::Command`: the bytes that the device sent
    /// during the exchange of the frame, or the failure of the bus.
    Commanded(Result<Vec<u8>, S>),
    /// The outcome of `Action::Payload`.
    Transferred(Result<(), S>),
    /// The outcome of `Action::Deselect`.
    Deselected(Result<(), G>),
}

impl<S, G> Event<S, G> {
    /// Whether the event reports a failure.
    pub open spec fn failed(self) -> bool {
        match self {
            Event::Selected(outcome) => outcome is Err,
            Event::Commanded(outcome) => outcome is Err,
            Event::Transferred(outcome) => outcome is Err,
            Event::Deselected(outcome) => outcome is Err,
        }
    }
}

/// Whether `event` is an outcome of `action`.
pub open spec fn answers<S, G>(action: Action<S, G>, event: Event<S, G>) -> bool {
    match action {
        Action::Select => event is Selected,
        Action::Command(_) => event is Commanded,
        Action::Payload { .. } => event is Transferred,
        Action::Deselect => event is Deselected,
        Action::Done(_) => false,
    }
}

/// Whether the burst mode of the device has to be toggled to come from one
/// burst length to another. The device knows two modes only: 32 bytes, and
/// anything else.
pub open spec fn toggles(from: BurstLength, to: BurstLength) -> bool {
    (from is ThirtyTwoByte) != (to is ThirtyTwoByte)
}

/// What the answer to `ReadId` amounts to: the identification record is
/// what follows the first four bytes.
pub open spec fn identified<S, G>(answer: Seq<u8>) -> Result<Reply, Error<S, G>> {
    let record = if answer.len() >= ID_LATENCY {
        answer.skip(ID_LATENCY as int)
    } else {
        Seq::empty()
    };
    match Identification::parse(record) {
        Some(id) => Ok(Reply::Identified(id)),
        None => Err(Error::InvalidDevice),
    }
}

/// The state of a driver.
#[derive(Debug)]
pub struct State<S, G> {
    /// The frequency class that the driver was made for.
    pub freq: Freq,
    /// The burst length that the device is set to.
    pub burst_length: BurstLength,
    /// The operation in progress, if there is one.
    pub job: Option<Job>,
    /// While the device is being released: what the exchange has come to. An
    /// error here is reported once the device is released.
    pub verdict: Result<Reply, Error<S, G>>,
}

impl<S, G> State<S, G> {
    /// The state of a new driver, before the device is told anything: the
    /// device is taken to be in its power-on mode, with no limit on bursts.
    pub open spec fn fresh() -> Self {
        State {
            freq: Freq::ThreeThree,
            burst_length: BurstLength::Unrestricted,
            job: None,
            verdict: Ok(Reply::Completed),
        }
    }

    /// The invariant of the driver. Only 33 MHz is driven. While an operation
    /// is in progress, the exchange under way is one of those of its task, and
    /// a payload is exchanged only where the task has one. A verdict other
    /// than plain completion is held only while the device is being released:
    /// an identification or its refusal only for `ReadId`, and else no
    /// failure but one of the bus.
    pub open spec fn wf(self) -> bool {
        &&& self.freq == Freq::ThreeThree
        &&& match self.job {
            None => self.verdict == Ok::<Reply, Error<S, G>>(Reply::Completed),
            Some(job) => {
                &&& job.index < job.task.exchanges()
                &&& job.stage is Transferring ==> job.task.payload(job.index as nat) is Some
                &&& job.stage !is Deselecting ==> self.verdict == Ok::<Reply, Error<S, G>>(
                    Reply::Completed,
                )
                &&& self.verdict matches Ok(Reply::Identified(_)) ==> job.task is ReadId
                &&& self.verdict matches Err(failure) ==> failure is Spi || (failure
                    is InvalidDevice && job.task is ReadId)
            },
        }
    }

    /// Whether no operation is in progress.
    pub open spec fn idle(self) -> bool {
        self.job is None
    }

    /// The action that the driver has asked for and waits to hear of, while
    /// an operation is in progress.
    pub open spec fn asked(self) -> Action<S, G>
        recommends
            self.job is Some,
    {
        let job = self.job->0;
        match job.stage {
            Stage::Selecting => Action::Select,
            Stage::Commanding => Action::Command(job.task.command(job.index as nat)),
            Stage::Transferring => {
                let (start, end) = job.task.payload(job.index as nat)->0;
                Action::Payload { start: start as usize, end: end as usize }
            },
            Stage::Deselecting => Action::Deselect,
        }
    }

    /// A bound on the number of actions that the driver will still ask for
    /// before the operation ends, the end counted.
    pub open spec fn remaining(self) -> nat {
        match self.job {
            None => 0,
            Some(job) => (4 * (job.task.exchanges() - job.index) - job.stage.ordinal()) as nat,
        }
    }

    /// Whether `event` is the outcome of the action that the driver asked
    /// for last.
    pub open spec fn awaits(self, event: Event<S, G>) -> bool {
        match self.job {
            None => false,
            Some(job) => match event {
                Event::Selected(_) => job.stage is Selecting,
                Event::Commanded(_) => job.stage is Commanding,
                Event::Transferred(_) => job.stage is Transferring,
                Event::Deselected(_) => job.stage is Deselecting,
            },
        }
    }

    /// The state in which `task` has been taken up, and the first action of
    /// the task. A task without exchanges is over at once.
    pub open spec fn begin(self, task: Task) -> (Self, Action<S, G>) {
        if task.exchanges() == 0 {
            (self, Action::Done(Ok(Reply::Completed)))
        } else {
            (
                State { job: Some(Job { task, index: 0, stage: Stage::Selecting }), ..self },
                Action::Select,
            )
        }
    }

    /// The state and the first action when the burst length `burst` is asked
    /// for. Where the device's mode has to be toggled, that is taken up as a
    /// task, and the burst length is recorded when the task has succeeded.
    /// Where it has not, the burst length is recorded at once.
    pub open spec fn request_burst(self, burst: BurstLength) -> (Self, Action<S, G>) {
        if toggles(self.burst_length, burst) {
            self.begin(Task::SetBurst(burst))
        } else {
            (State { burst_length: burst, ..self }, Action::Done(Ok(Reply::Completed)))
        }
    }

    /// The state in which the device is being released after an exchange
    /// that has come to `verdict`, and the action that releases it.
    pub open spec fn release(self, verdict: Result<Reply, Error<S, G>>) -> (Self, Action<S, G>) {
        let job = self.job->0;
        (
            State { job: Some(Job { stage: Stage::Deselecting, ..job }), verdict, ..self },
            Action::Deselect,
        )
    }

    /// The state after the operation has ended with `result`, and the action
    /// that says so. The burst length changes only here, and only when a
    /// toggle has succeeded.
    pub open spec fn finish(self, result: Result<Reply, Error<S, G>>) -> (Self, Action<S, G>) {
        let burst_length = match (self.job, result) {
            (Some(Job { task: Task::SetBurst(burst), .. }), Ok(_)) => burst,
            _ => self.burst_length,
        };
        (
            State { burst_length, job: None, verdict: Ok(Reply::Completed), ..self },
            Action::Done(result),
        )
    }

    /// The state that follows on `event`, and the action that the driver
    /// asks for next.
    ///
    /// The device is selected, the command is exchanged, then the payload
    /// where there is one, and the device is released. A failure to select
    /// ends the operation at once. A failure of a transfer ends the
    /// exchange: what is left of it is skipped, the device is released, and
    /// then the failure is reported. A failure to release the device is
    /// reported whatever the exchange came to. After an exchange without a
    /// failure the next one follows, and after the last one the operation
    /// ends with what it found.
    pub open spec fn step(self, event: Event<S, G>) -> (Self, Action<S, G>)
        recommends
            self.wf(),
            self.awaits(event),
    {
        let job = self.job->0;
        match event {
            Event::Selected(Ok(_)) => (
                State { job: Some(Job { stage: Stage::Commanding, ..job }), ..self },
                Action::Command(job.task.command(job.index as nat)),
            ),
            Event::Selected(Err(fault)) => self.finish(Err(Error::Gpio(fault))),
            Event::Commanded(Ok(answer)) => if job.task is ReadId {
                self.release(identified(answer@))
            } else {
                match job.task.payload(job.index as nat) {
                    Some((start, end)) => (
                        State { job: Some(Job { stage: Stage::Transferring, ..job }), ..self },
                        Action::Payload { start: start as usize, end: end as usize },
                    ),
                    None => self.release(Ok(Reply::Completed)),
                }
            },
            Event::Commanded(Err(fault)) => self.release(Err(Error::Spi(fault))),
            Event::Transferred(Ok(_)) => self.release(Ok(Reply::Completed)),
            Event::Transferred(Err(fault)) => self.release(Err(Error::Spi(fault))),
            Event::Deselected(Err(fault)) => self.finish(Err(Error::Gpio(fault))),
            Event::Deselected(Ok(_)) => if self.verdict is Err || job.index + 1
                == job.task.exchanges() {
                self.finish(self.verdict)
            } else {
                (
                    State {
                        job: Some(
                            Job { index: (job.index + 1) as usize, stage: Stage::Selecting, ..job },
                        ),
                        verdict: Ok(Reply::Completed),
                        ..self
                    },
                    Action::Select,
                )
            },
        }
    }
}

/// One step keeps the driver in order and brings the operation nearer to
/// its end: the invariant holds of the next state, the driver is idle again
/// exactly when the action is `Done`, any other action is what the next
/// state waits to hear of, within the same task, and the bound on the
/// actions still to come has gone down.
pub proof fn lemma_step_advances<S, G>(state: State<S, G>, event: Event<S, G>)
    requires
        state.wf(),
        state.awaits(event),
    ensures
        ({
            let (next, action) = state.step(event);
            &&& next.wf()
            &&& next.freq == state.freq
            &&& next.remaining() < state.remaining()
            &&& action is Done <==> next.idle()
            &&& action !is Done ==> next.asked() == action && next.job->0.task
                == state.job->0.task
        }),
{
    let job = state.job->0;
    let (next, action) = state.step(event);
    lemma_payload_in_buffer(job.task, job.index as nat);
    if event is Deselected && !(action is Done) {
        assert(next.job->0.index == job.index + 1);
    }
}

/// The payload of every exchange of a task lies within the caller's buffer.
pub proof fn lemma_payload_in_buffer(task: Task, i: nat)
    requires
        i < task.exchanges(),
    ensures
        task.payload(i) matches Some((start, end)) ==> start <= end <= task.buffer_len(),
{
}

/// The recorded burst length follows the device. A step changes it only
/// where it ends a toggle of the burst mode with success, and then to the
/// burst length that the toggle was for. After a failed toggle it is what it
/// was.
pub proof fn lemma_burst_length_follows_device<S, G>(state: State<S, G>, event: Event<S, G>)
    requires
        state.wf(),
        state.awaits(event),
    ensures
        ({
            let (next, action) = state.step(event);
            next.burst_length == if action matches Action::Done(Ok(_)) {
                match state.job->0.task {
                    Task::SetBurst(burst) => burst,
                    _ => state.burst_length,
                }
            } else {
                state.burst_length
            }
        }),
{
}

/// The device is released on every path. Once it has been selected, an
/// operation does not end before the driver has asked for its release and
/// heard of the outcome: the only other event that ends an operation is a
/// failure to select the device.
pub proof fn lemma_ends_released<S, G>(state: State<S, G>, event: Event<S, G>)
    requires
        state.wf(),
        state.awaits(event),
        state.step(event).1 is Done,
    ensures
        state.job->0.stage is Deselecting || (state.job->0.stage is Selecting && event.failed()),
{
}

/// A failure of a transfer is not lost and not reported early. The driver
/// answers it by asking for the release of the device, and skips what was
/// left of the exchange. If the release succeeds the operation ends with
/// the failure of the bus; if the release fails it ends with the failure of
/// the line.
pub proof fn lemma_transfer_failure_reported<S, G>(
    state: State<S, G>,
    event: Event<S, G>,
    release: Result<(), G>,
)
    requires
        state.wf(),
        state.awaits(event),
        event is Commanded || event is Transferred,
        event.failed(),
    ensures
        ({
            let fault = match event {
                Event::Commanded(outcome) => outcome->Err_0,
                Event::Transferred(outcome) => outcome->Err_0,
                _ => arbitrary(),
            };
            let (next, action) = state.step(event);
            &&& action == Action::<S, G>::Deselect
            &&& next.awaits(Event::Deselected(release))
            &&& next.step(Event::Deselected(release)).1 == Action::<S, G>::Done(
                match release {
                    Ok(_) => Err(Error::Spi(fault)),
                    Err(stuck) => Err(Error::Gpio(stuck)),
                },
            )
        }),
{
}

/// A failure to release the device is reported, whatever the exchange came
/// to: also after a payload that was transferred without a failure.
pub proof fn lemma_release_failure_reported<S, G>(state: State<S, G>, stuck: G)
    requires
        state.wf(),
        state.awaits(Event::Deselected(Err(stuck))),
    ensures
        state.step(Event::Deselected(Err(stuck))).1 == Action::<S, G>::Done(
            Err(Error::Gpio(stuck)),
        ),
        state.step(Event::Deselected(Err(stuck))).0.burst_length == state.burst_length,
{
}

/// An operation ends with an error only for what went wrong. The failure of
/// the line that it reports is the failure of the event that ended it. The
/// failure of the bus or the refusal of the device that it reports was found
/// in the exchange that has just been closed, and the device was released
/// without a failure after it.
pub proof fn lemma_error_has_cause<S, G>(state: State<S, G>, event: Event<S, G>)
    requires
        state.wf(),
        state.awaits(event),
    ensures
        ({
            let (next, action) = state.step(event);
            match action {
                Action::Done(Err(Error::Gpio(stuck))) => event == Event::<S, G>::Selected(
                    Err(stuck),
                ) || event == Event::<S, G>::Deselected(Err(stuck)),
                Action::Done(Err(failure)) => (event matches Event::Deselected(Ok(_)))
                    && state.verdict == Err::<Reply, Error<S, G>>(failure),
                Action::Done(Ok(reply)) => (event matches Event::Deselected(Ok(_)))
                    && state.verdict == Ok::<Reply, Error<S, G>>(reply),
                _ => true,
            }
        }),
{
}

} // verus!

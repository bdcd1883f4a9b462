//! Whole operations: every action that the driver asks for, from the first
//! one to the end of the operation, when each is answered by a bus.
//!
//! A bus is described by a function that gives, for the number of an action
//! within the operation (counted from 0) and the action itself, the event
//! that reports its outcome.

use crate::error::Error;
use crate::psram::BurstLength;
use crate::state::{
    answers, identified, lemma_error_has_cause, lemma_step_advances, toggles, Action, Event,
    Reply, State, Task,
};
use crate::wire::{chunk_count, lemma_address_bytes_of_chunk, Command, CHUNK};
use vstd::prelude::*;

verus! {

/// Whether `bus` answers every action with an outcome of that action.
pub open spec fn answering<S, G>(bus: spec_fn(nat, Action<S, G>) -> Event<S, G>) -> bool {
    forall|k: nat, action: Action<S, G>|
        !(action is Done) ==> answers(action, #[trigger] bus(k, action))
}

/// Whether `bus` answers every action, and never with a failure.
pub open spec fn faultless<S, G>(bus: spec_fn(nat, Action<S, G>) -> Event<S, G>) -> bool {
    &&& answering(bus)
    &&& forall|k: nat, action: Action<S, G>| !(#[trigger] bus(k, action)).failed()
}

/// What becomes of the operation in progress when `bus` answers action
/// number `k`, which is the one that the driver waits to hear of, and every
/// action after it: the state of the driver at the end, and the actions that
/// it asked for after action number `k`, in order.
pub open spec fn run<S, G>(
    state: State<S, G>,
    bus: spec_fn(nat, Action<S, G>) -> Event<S, G>,
    k: nat,
) -> (State<S, G>, Seq<Action<S, G>>)
    decreases state.remaining(),
{
    let event = bus(k, state.asked());
    if state.wf() && state.awaits(event) {
        let (next, action) = state.step(event);
        proof {
            lemma_step_advances(state, event);
        }
        let (last, actions) = run(next, bus, k + 1);
        (last, seq![action] + actions)
    } else {
        (state, Seq::empty())
    }
}

/// All the actions of an operation, given the state in which it was taken up
/// and its first action.
pub open spec fn trace<S, G>(
    begun: (State<S, G>, Action<S, G>),
    bus: spec_fn(nat, Action<S, G>) -> Event<S, G>,
) -> Seq<Action<S, G>> {
    seq![begun.1] + run(begun.0, bus, 0).1
}

/// The state of the driver at the end of an operation, given the state in
/// which it was taken up and its first action.
pub open spec fn settled<S, G>(
    begun: (State<S, G>, Action<S, G>),
    bus: spec_fn(nat, Action<S, G>) -> Event<S, G>,
) -> State<S, G> {
    run(begun.0, bus, 0).0
}

/// The events that `bus` answers with from action number `k` on, which is the
/// one that the driver waits to hear of, to the end of the operation, in
/// order.
pub open spec fn heard<S, G>(
    state: State<S, G>,
    bus: spec_fn(nat, Action<S, G>) -> Event<S, G>,
    k: nat,
) -> Seq<Event<S, G>>
    decreases state.remaining(),
{
    let event = bus(k, state.asked());
    if state.wf() && state.awaits(event) {
        proof {
            lemma_step_advances(state, event);
        }
        seq![event] + heard(state.step(event).0, bus, k + 1)
    } else {
        Seq::empty()
    }
}

/// Every operation comes to an end, whatever the bus answers. The driver
/// asks for no more actions than `remaining` says, the last of them is
/// `Done` and no other is, and the driver is then idle and in order. The
/// burst length at the end is the one that a toggle was for where the
/// operation was that toggle and ended with success, and else the one from
/// before the operation.
pub proof fn lemma_run_ends<S, G>(
    state: State<S, G>,
    bus: spec_fn(nat, Action<S, G>) -> Event<S, G>,
    k: nat,
)
    requires
        state.wf(),
        state.job is Some,
        answering(bus),
    ensures
        ({
            let (last, actions) = run(state, bus, k);
            &&& 1 <= actions.len() <= state.remaining()
            &&& actions.last() is Done
            &&& forall|j: int| 0 <= j < actions.len() - 1 ==> !(#[trigger] actions[j] is Done)
            &&& last.wf()
            &&& last.idle()
            &&& last.freq == state.freq
            &&& last.burst_length == match (state.job->0.task, actions.last()) {
                (Task::SetBurst(burst), Action::Done(Ok(_))) => burst,
                _ => state.burst_length,
            }
        }),
    decreases state.remaining(),
{
    let event = bus(k, state.asked());
    assert(answers(state.asked(), event));
    let (next, action) = state.step(event);
    lemma_step_advances(state, event);
    let (last, actions) = run(state, bus, k);
    let (rest_last, rest) = run(next, bus, k + 1);
    assert(actions == seq![action] + rest);
    if action is Done {
        assert(rest =~= Seq::empty());
        assert(actions =~= seq![action]);
    } else {
        lemma_run_ends(next, bus, k + 1);
        assert(actions.last() == rest.last());
        assert forall|j: int| 0 <= j < actions.len() - 1 implies !(#[trigger] actions[j]
            is Done) by {
            if j > 0 {
                assert(actions[j] == rest[j - 1]);
            }
        }
    }
}

/// Whether `event` is a transfer that found `failure`: a transfer that
/// failed on the bus, or the exchange of the command of `ReadId` with an
/// answer that is no valid identification record.
pub open spec fn finds<S, G>(event: Event<S, G>, failure: Error<S, G>) -> bool {
    match failure {
        Error::Spi(fault) => event == Event::<S, G>::Commanded(Err(fault)) || event == Event::<
            S,
            G,
        >::Transferred(Err(fault)),
        Error::InvalidDevice => event matches Event::Commanded(Ok(answer)) && identified::<S, G>(
            answer@,
        ) is Err,
        _ => false,
    }
}

/// What the end of an operation says of the events from some point of the
/// operation on.
proof fn lemma_result_has_cause_from<S, G>(
    state: State<S, G>,
    bus: spec_fn(nat, Action<S, G>) -> Event<S, G>,
    k: nat,
)
    requires
        state.wf(),
        state.job is Some,
        answering(bus),
    ensures
        ({
            let actions = run(state, bus, k).1;
            let events = heard(state, bus, k);
            let n = events.len() as int;
            &&& n == actions.len()
            &&& n >= 1
            &&& state.verdict is Err ==> (actions.last() matches Action::Done(Err(_)))
            &&& match actions.last() {
                Action::Done(Ok(_)) => forall|j: int| 0 <= j < n ==> !(#[trigger] events[j]).failed(),
                Action::Done(Err(Error::Gpio(stuck))) => events.last() == Event::<S, G>::Selected(
                    Err(stuck),
                ) || events.last() == Event::<S, G>::Deselected(Err(stuck)),
                Action::Done(Err(failure)) => {
                    &&& (events.last() matches Event::Deselected(Ok(_)))
                    &&& if n >= 2 {
                        finds(events[n - 2], failure)
                    } else {
                        state.verdict == Err::<Reply, Error<S, G>>(failure)
                    }
                },
                _ => false,
            }
        }),
    decreases state.remaining(),
{
    let event = bus(k, state.asked());
    assert(answers(state.asked(), event));
    let (next, action) = state.step(event);
    lemma_step_advances(state, event);
    lemma_error_has_cause(state, event);
    let actions = run(state, bus, k).1;
    let events = heard(state, bus, k);
    let rest_actions = run(next, bus, k + 1).1;
    let rest_events = heard(next, bus, k + 1);
    assert(actions == seq![action] + rest_actions);
    assert(events == seq![event] + rest_events);
    if action is Done {
        assert(rest_actions =~= Seq::empty());
        assert(rest_events =~= Seq::empty());
        assert(actions.last() == action);
        assert(events.last() == event);
    } else {
        lemma_result_has_cause_from(next, bus, k + 1);
        let n = events.len() as int;
        assert(actions.last() == rest_actions.last());
        assert(events.last() == rest_events.last());
        assert(event.failed() ==> next.verdict is Err);
        match actions.last() {
            Action::Done(Ok(_)) => {
                assert forall|j: int| 0 <= j < n implies !(#[trigger] events[j]).failed() by {
                    if j > 0 {
                        assert(events[j] == rest_events[j - 1]);
                    }
                }
            },
            Action::Done(Err(Error::Gpio(_))) => {},
            Action::Done(Err(failure)) => {
                if n >= 3 {
                    assert(events[n - 2] == rest_events[n - 3]);
                } else {
                    assert(events[n - 2] == event);
                    assert(next.verdict == Err::<Reply, Error<S, G>>(failure));
                    assert(finds(event, failure));
                }
            },
            _ => {},
        }
    }
}

/// An operation ends with an error only for what went wrong, and with
/// success only if nothing did.
///
/// Whatever the bus answers: an operation that ends with success has heard
/// of no failure. One that ends with a failure of the line has heard of
/// that failure last, from selecting or from releasing the device. One that
/// ends with a failure of the bus, or with the refusal of the device, has
/// heard of the release of the device last, without a failure, and just
/// before it of the transfer that failed so, or whose answer was refused.
pub proof fn lemma_result_has_cause<S, G>(
    state: State<S, G>,
    task: Task,
    bus: spec_fn(nat, Action<S, G>) -> Event<S, G>,
)
    requires
        state.wf(),
        state.idle(),
        answering(bus),
    ensures
        ({
            let begun = state.begin(task);
            let events = heard(begun.0, bus, 0);
            let n = events.len() as int;
            &&& n + 1 == trace(begun, bus).len()
            &&& match trace(begun, bus).last() {
                Action::Done(Ok(_)) => forall|j: int| 0 <= j < n ==> !(#[trigger] events[j]).failed(),
                Action::Done(Err(Error::Gpio(stuck))) => events.last() == Event::<S, G>::Selected(
                    Err(stuck),
                ) || events.last() == Event::<S, G>::Deselected(Err(stuck)),
                Action::Done(Err(failure)) => {
                    &&& n >= 2
                    &&& (events.last() matches Event::Deselected(Ok(_)))
                    &&& finds(events[n - 2], failure)
                },
                _ => false,
            }
        }),
{
    let begun = state.begin(task);
    let actions = run(begun.0, bus, 0).1;
    if task.exchanges() == 0 {
        assert(actions =~= Seq::empty());
        assert(heard(begun.0, bus, 0) =~= Seq::empty());
        assert(trace(begun, bus) =~= seq![begun.1]);
    } else {
        lemma_result_has_cause_from(begun.0, bus, 0);
        assert(trace(begun, bus).last() == actions.last());
    }
}

/// The actions of exchange `i` of a task, when nothing fails: the device is
/// selected, the command is exchanged, then the payload where the task has
/// one, and the device is released.
pub open spec fn exchange_script<S, G>(task: Task, i: nat) -> Seq<Action<S, G>> {
    let opening = seq![Action::<S, G>::Select, Action::Command(task.command(i))];
    let closing = seq![Action::Deselect];
    match task.payload(i) {
        Some((start, end)) => opening + seq![
            Action::Payload { start: start as usize, end: end as usize },
        ] + closing,
        None => opening + closing,
    }
}

/// The actions of the exchanges of a task from exchange `from` on, when
/// nothing fails.
pub open spec fn script<S, G>(task: Task, from: nat) -> Seq<Action<S, G>>
    decreases task.exchanges() - from,
{
    if from >= task.exchanges() {
        Seq::empty()
    } else {
        exchange_script(task, from) + script(task, from + 1)
    }
}

/// The result of a task when nothing fails and the command of its first
/// exchange is action number `k`: the identification that the device's
/// answer amounts to, or its refusal, for `ReadId`, and plain completion for
/// any other task.
pub open spec fn faultless_result<S, G>(
    task: Task,
    bus: spec_fn(nat, Action<S, G>) -> Event<S, G>,
    k: nat,
) -> Result<Reply, Error<S, G>> {
    match task {
        Task::ReadId => match bus(k, Action::Command(Command::ReadId)) {
            Event::Commanded(Ok(answer)) => identified(answer@),
            _ => Ok(Reply::Completed),
        },
        _ => Ok(Reply::Completed),
    }
}

/// From the start of exchange `i` on, a bus without failures is asked for
/// the scripted actions of the exchanges that are left, and then the
/// operation ends.
proof fn lemma_faultless_exchanges<S, G>(
    state: State<S, G>,
    bus: spec_fn(nat, Action<S, G>) -> Event<S, G>,
    k: nat,
)
    requires
        state.wf(),
        state.job is Some,
        state.job->0.stage is Selecting,
        faultless(bus),
    ensures
        ({
            let job = state.job->0;
            let result = faultless_result(job.task, bus, k + 1);
            &&& seq![Action::Select] + run(state, bus, k).1 == script::<S, G>(
                job.task,
                job.index as nat,
            ) + seq![Action::Done(result)]
            &&& run(state, bus, k).0 == state.finish(result).0
        }),
    decreases state.job->0.task.exchanges() - state.job->0.index,
{
    let job = state.job->0;
    let task = job.task;
    let i = job.index as nat;
    let result = faultless_result(task, bus, k + 1);
    let select = Action::<S, G>::Select;
    let command = Action::<S, G>::Command(task.command(i));
    let deselect = Action::<S, G>::Deselect;

    // The device is selected.
    let e0 = bus(k, state.asked());
    assert(answers(state.asked(), e0) && !e0.failed());
    let (s1, a1) = state.step(e0);
    lemma_step_advances(state, e0);
    assert(a1 == command);
    assert(run(state, bus, k).1 == seq![a1] + run(s1, bus, k + 1).1);

    // The command is exchanged.
    let e1 = bus(k + 1, s1.asked());
    assert(answers(s1.asked(), e1) && !e1.failed());
    let (s2, a2) = s1.step(e1);
    lemma_step_advances(s1, e1);
    assert(run(s1, bus, k + 1).1 == seq![a2] + run(s2, bus, k + 2).1);

    // The payload is exchanged, where there is one, and the device released.
    let (held, after, at) = if a2 is Payload {
        let e2 = bus(k + 2, s2.asked());
        assert(answers(s2.asked(), e2) && !e2.failed());
        let (s3, a3) = s2.step(e2);
        lemma_step_advances(s2, e2);
        assert(a3 == deselect);
        assert(run(s2, bus, k + 2).1 == seq![a3] + run(s3, bus, k + 3).1);
        assert(seq![select, a1, a2] + run(s2, bus, k + 2).1 =~= exchange_script::<S, G>(task, i)
            + run(s3, bus, k + 3).1);
        (s3, run(s3, bus, k + 3), (k + 3) as nat)
    } else {
        assert(a2 == deselect);
        assert(seq![select, a1] + run(s1, bus, k + 1).1 =~= exchange_script::<S, G>(task, i)
            + run(s2, bus, k + 2).1);
        (s2, run(s2, bus, k + 2), (k + 2) as nat)
    };
    assert(seq![select] + run(state, bus, k).1 =~= exchange_script::<S, G>(task, i) + after.1);
    assert(run(state, bus, k).0 == after.0);
    assert(task is ReadId ==> held.verdict == result);
    assert(!(task is ReadId) ==> held.verdict == Ok::<Reply, Error<S, G>>(
        Reply::Completed,
    ));

    // The release is heard of.
    let e3 = bus(at, held.asked());
    assert(answers(held.asked(), e3) && !e3.failed());
    let (s4, a4) = held.step(e3);
    lemma_step_advances(held, e3);
    assert(after.1 == seq![a4] + run(s4, bus, at + 1).1);
    assert(after.0 == run(s4, bus, at + 1).0);
    assert(script::<S, G>(task, i) == exchange_script::<S, G>(task, i) + script::<S, G>(
        task,
        i + 1,
    ));
    if a4 is Done {
        assert(run(s4, bus, at + 1).1 =~= Seq::empty());
        assert(i + 1 == task.exchanges());
        assert(script::<S, G>(task, i + 1) =~= Seq::empty());
        assert(a4 == Action::<S, G>::Done(result));
        assert(s4 == state.finish(result).0);
        assert(seq![select] + run(state, bus, k).1 =~= script::<S, G>(task, i) + seq![
            Action::Done(result),
        ]);
    } else {
        assert(a4 == select);
        lemma_faultless_exchanges(s4, bus, at + 1);
        assert(faultless_result(task, bus, at + 2) == result);
        assert(s4.finish(result).0 == state.finish(result).0);
        assert(seq![select] + run(state, bus, k).1 =~= exchange_script::<S, G>(task, i) + (
        seq![select] + run(s4, bus, at + 1).1));
        assert(seq![select] + run(state, bus, k).1 =~= script::<S, G>(task, i) + seq![
            Action::Done(result),
        ]);
    }
}

/// Against a bus without failures an operation asks for the scripted
/// actions of all its exchanges, in order, and nothing else, and then ends
/// with the faultless result. The driver is then as it was before, but for
/// the burst length where the operation was a toggle.
pub proof fn lemma_faultless_run<S, G>(
    state: State<S, G>,
    task: Task,
    bus: spec_fn(nat, Action<S, G>) -> Event<S, G>,
)
    requires
        state.wf(),
        state.idle(),
        faultless(bus),
    ensures
        trace(state.begin(task), bus) == script::<S, G>(task, 0) + seq![
            Action::Done(faultless_result(task, bus, 1)),
        ],
        settled(state.begin(task), bus) == (State {
            burst_length: match task {
                Task::SetBurst(burst) => burst,
                _ => state.burst_length,
            },
            ..state
        }),
{
    let begun = state.begin(task);
    if task.exchanges() == 0 {
        assert(run(begun.0, bus, 0).1 =~= Seq::empty());
        assert(script::<S, G>(task, 0) =~= Seq::empty());
        assert(trace(begun, bus) =~= seq![Action::Done(faultless_result(task, bus, 1))]);
    } else {
        lemma_faultless_exchanges(begun.0, bus, 0);
    }
}

/// The operations of one or two exchanges, when nothing fails. A toggle of
/// the burst mode and a read of the identification are one exchange of the
/// command alone. A reset is two of them: the reset is armed, then carried
/// out. A read is one exchange, whatever its length: the command, then the
/// whole buffer.
pub proof fn lemma_short_scripts<S, G>(burst: BurstLength, address: u32, len: usize)
    ensures
        script::<S, G>(Task::SetBurst(burst), 0) == seq![
            Action::<S, G>::Select,
            Action::Command(Command::SetBurstLength),
            Action::Deselect,
        ],
        script::<S, G>(Task::ReadId, 0) == seq![
            Action::<S, G>::Select,
            Action::Command(Command::ReadId),
            Action::Deselect,
        ],
        script::<S, G>(Task::Reset, 0) == seq![
            Action::<S, G>::Select,
            Action::Command(Command::ResetEnable),
            Action::Deselect,
            Action::Select,
            Action::Command(Command::Reset),
            Action::Deselect,
        ],
        script::<S, G>(Task::Read { address, len }, 0) == seq![
            Action::<S, G>::Select,
            Action::Command(Command::Read(address)),
            Action::Payload { start: 0, end: len },
            Action::Deselect,
        ],
{
    reveal_with_fuel(script, 3);
    assert(script::<S, G>(Task::SetBurst(burst), 0) =~= seq![
        Action::<S, G>::Select,
        Action::Command(Command::SetBurstLength),
        Action::Deselect,
    ]);
    assert(script::<S, G>(Task::ReadId, 0) =~= seq![
        Action::<S, G>::Select,
        Action::Command(Command::ReadId),
        Action::Deselect,
    ]);
    assert(script::<S, G>(Task::Reset, 0) =~= seq![
        Action::<S, G>::Select,
        Action::Command(Command::ResetEnable),
        Action::Deselect,
        Action::Select,
        Action::Command(Command::Reset),
        Action::Deselect,
    ]);
    assert(script::<S, G>(Task::Read { address, len }, 0) =~= seq![
        Action::<S, G>::Select,
        Action::Command(Command::Read(address)),
        Action::Payload { start: 0, end: len },
        Action::Deselect,
    ]);
}

/// Setting the burst length costs one toggle command or none. Against a bus
/// without failures, a change between the 32-byte mode and another burst
/// length is one exchange of the toggle command; no change, and a change
/// between no limit and one kilobyte, ask nothing of the bus. Either way
/// the driver records the new burst length.
pub proof fn lemma_set_burst_run<S, G>(
    state: State<S, G>,
    burst: BurstLength,
    bus: spec_fn(nat, Action<S, G>) -> Event<S, G>,
)
    requires
        state.wf(),
        state.idle(),
        faultless(bus),
    ensures
        trace(state.request_burst(burst), bus) == if toggles(state.burst_length, burst) {
            seq![
                Action::<S, G>::Select,
                Action::Command(Command::SetBurstLength),
                Action::Deselect,
                Action::Done(Ok(Reply::Completed)),
            ]
        } else {
            seq![Action::Done(Ok(Reply::Completed))]
        },
        settled(state.request_burst(burst), bus) == (State { burst_length: burst, ..state }),
{
    if toggles(state.burst_length, burst) {
        lemma_faultless_run(state, Task::SetBurst(burst), bus);
        lemma_short_scripts::<S, G>(burst, 0, 0);
        assert(trace(state.request_burst(burst), bus) =~= seq![
            Action::<S, G>::Select,
            Action::Command(Command::SetBurstLength),
            Action::Deselect,
            Action::Done(Ok(Reply::Completed)),
        ]);
    } else {
        let begun = state.request_burst(burst);
        assert(run(begun.0, bus, 0).1 =~= Seq::empty());
        assert(trace(begun, bus) =~= seq![Action::Done(Ok(Reply::Completed))]);
    }
}

/// A new driver toggles the burst mode once where it is made for bursts of
/// 32 bytes, and asks nothing of the bus where it is made for another burst
/// length: the device is taken to be in its power-on mode. Against a bus
/// without failures the driver then records the burst length that it was
/// made for.
pub proof fn lemma_init_run<S, G>(
    burst: BurstLength,
    bus: spec_fn(nat, Action<S, G>) -> Event<S, G>,
)
    requires
        faultless(bus),
    ensures
        trace(State::fresh().request_burst(burst), bus) == if burst is ThirtyTwoByte {
            seq![
                Action::<S, G>::Select,
                Action::Command(Command::SetBurstLength),
                Action::Deselect,
                Action::Done(Ok(Reply::Completed)),
            ]
        } else {
            seq![Action::Done(Ok(Reply::Completed))]
        },
        settled(State::fresh().request_burst(burst), bus) == (State {
            burst_length: burst,
            ..State::<S, G>::fresh()
        }),
{
    lemma_set_burst_run(State::fresh(), burst, bus);
}

/// The script of a write from chunk `from` on is four actions for each
/// chunk that is left, and those of chunk `i` stand at `4 * (i - from)`.
proof fn lemma_write_script_layout<S, G>(address: u32, len: usize, from: nat, i: nat)
    requires
        from <= i < chunk_count(len as nat),
    ensures
        script::<S, G>(Task::Write { address, len }, from).len() == 4 * (chunk_count(len as nat)
            - from),
        script::<S, G>(Task::Write { address, len }, from).subrange(
            4 * (i - from),
            4 * (i - from) + 4,
        ) == exchange_script::<S, G>(Task::Write { address, len }, i),
    decreases i - from,
{
    let task = Task::Write { address, len };
    let head = exchange_script::<S, G>(task, from);
    let tail = script::<S, G>(task, from + 1);
    assert(script::<S, G>(task, from) == head + tail);
    assert(head.len() == 4);
    lemma_write_script_len::<S, G>(address, len, from + 1);
    if i == from {
        assert((head + tail).subrange(0, 4) =~= head);
    } else {
        lemma_write_script_layout::<S, G>(address, len, from + 1, i);
        assert((head + tail).subrange(4 * (i - from), 4 * (i - from) + 4) =~= tail.subrange(
            4 * (i - from - 1),
            4 * (i - from - 1) + 4,
        ));
    }
}

/// The script of a write from chunk `from` on is four actions for each
/// chunk that is left.
proof fn lemma_write_script_len<S, G>(address: u32, len: usize, from: nat)
    requires
        from <= chunk_count(len as nat),
    ensures
        script::<S, G>(Task::Write { address, len }, from).len() == 4 * (chunk_count(len as nat)
            - from),
    decreases chunk_count(len as nat) - from,
{
    let task = Task::Write { address, len };
    if from < chunk_count(len as nat) {
        lemma_write_script_len::<S, G>(address, len, from + 1);
        assert(exchange_script::<S, G>(task, from).len() == 4);
    }
}

/// Chunk `i` of a write: its place in the script, its four actions, the
/// bytes of its command and the part of the buffer that it carries.
pub open spec fn chunk_as_planned<S, G>(address: u32, len: usize, i: nat) -> bool {
    let task = Task::Write { address, len };
    let target = address + CHUNK * i;
    let end = if i + 1 < chunk_count(len as nat) {
        CHUNK * i + CHUNK
    } else {
        len as int
    };
    &&& script::<S, G>(task, 0).subrange((4 * i) as int, (4 * i + 4) as int) == seq![
        Action::<S, G>::Select,
        Action::Command(task.command(i)),
        Action::Payload { start: (CHUNK * i) as usize, end: end as usize },
        Action::Deselect,
    ]
    &&& task.command(i).bytes() == seq![
        0x02u8,
        (target / 0x1_0000 % 0x100) as u8,
        (target / 0x100 % 0x100) as u8,
        (target % 0x100) as u8,
    ]
    &&& CHUNK * i < end <= len
}

/// Every chunk of a write is as planned.
proof fn lemma_write_chunk<S, G>(address: u32, len: usize, i: nat)
    requires
        i < chunk_count(len as nat),
    ensures
        chunk_as_planned::<S, G>(address, len, i),
{
    let task = Task::Write { address, len };
    let target = address + CHUNK * i;
    let end = if i + 1 < chunk_count(len as nat) {
        CHUNK * i + CHUNK
    } else {
        len as int
    };
    lemma_write_script_layout::<S, G>(address, len, 0, i);
    assert(exchange_script::<S, G>(task, i) =~= seq![
        Action::<S, G>::Select,
        Action::Command(task.command(i)),
        Action::Payload { start: (CHUNK * i) as usize, end: end as usize },
        Action::Deselect,
    ]);
    lemma_address_bytes_of_chunk(address, i);
    assert(task.command(i).bytes() =~= seq![
        0x02u8,
        (target / 0x1_0000 % 0x100) as u8,
        (target / 0x100 % 0x100) as u8,
        (target % 0x100) as u8,
    ]);
}

/// A write of `len` bytes at `address` is made of `len / 256` chunks,
/// rounded up, one exchange each, in the order of the buffer. The command
/// of chunk `i` is a write whose three address bytes are those of
/// `address + 256 * i`, the most significant first. Its payload starts at
/// offset `256 * i` of the buffer and is 256 bytes long, but for the last
/// chunk, which ends with the buffer: it holds what is left of `len` after
/// the full chunks before it, which is 256 bytes where `len` is a multiple
/// of 256.
pub proof fn lemma_write_in_chunks<S, G>(address: u32, len: usize)
    ensures
        ({
            let task = Task::Write { address, len };
            let chunks = chunk_count(len as nat);
            &&& task.exchanges() == chunks
            &&& chunks == if len % CHUNK == 0 {
                len as int / CHUNK as int
            } else {
                len as int / CHUNK as int + 1
            }
            &&& script::<S, G>(task, 0).len() == 4 * chunks
            &&& forall|i: nat| i < chunks ==> #[trigger] chunk_as_planned::<S, G>(address, len, i)
            &&& len > 0 ==> len - CHUNK * (chunks - 1) == if len % CHUNK == 0 {
                CHUNK as int
            } else {
                (len % CHUNK) as int
            }
        }),
{
    lemma_write_script_len::<S, G>(address, len, 0);
    assert forall|i: nat| i < chunk_count(len as nat) implies #[trigger] chunk_as_planned::<S, G>(
        address,
        len,
        i,
    ) by {
        lemma_write_chunk::<S, G>(address, len, i);
    }
}

} // verus!

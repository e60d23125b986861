//! The command sequencer: a state machine that hands the radio its
//! configuration commands one per invocation, then idles.
//!
//! The transition is a pure function of the current state. What carries a
//! command to the line and what re-arms the timer is the caller's business:
//! each invocation tells it what to do.

use vstd::prelude::*;

verus! {

/// Ticks of the scheduler's one-kilohertz clock between system start and the
/// first invocation of the sequencer.
pub const FIRST_DELAY_TICKS: u64 = 30_000;

/// Ticks of the scheduler's one-kilohertz clock between one invocation of the
/// sequencer and the next, whatever the state.
pub const REARM_DELAY_TICKS: u64 = 80_000;

/// The sequencer's steps, in order. `Fourth` is final: it leads to itself.
#[derive(Clone, Copy, Debug, PartialEq, Eq, Structural)]
pub enum State {
    First,
    Second,
    Third,
    Fourth,
}

/// A configuration command of the radio.
#[derive(Clone, Copy, Debug, PartialEq, Eq, Structural)]
pub enum Command {
    NetworkId,
    Address,
    Parameter,
}

/// What one invocation of the sequencer asks of its caller.
#[derive(Clone, Copy, Debug, PartialEq, Eq, Structural)]
pub enum Action {
    /// Hand this command to the outbound sender, without waiting for it.
    Emit(Command),
    /// Send nothing; note that the sequencer is waiting for a message.
    Wait,
}

/// One invocation's outcome: the action, and the delay after which the
/// sequencer is to run again.
#[derive(Clone, Copy, Debug, PartialEq, Eq, Structural)]
pub struct Invocation {
    pub action: Action,
    pub rearm_ticks: u64,
}

impl State {
    /// The state at system start.
    pub open spec fn initial() -> State {
        State::First
    }

    /// The step that follows this one.
    pub open spec fn successor(self) -> State {
        match self {
            State::First => State::Second,
            State::Second => State::Third,
            State::Third => State::Fourth,
            State::Fourth => State::Fourth,
        }
    }

    /// The action of this step.
    pub open spec fn action(self) -> Action {
        match self {
            State::First => Action::Emit(Command::NetworkId),
            State::Second => Action::Emit(Command::Address),
            State::Third => Action::Emit(Command::Parameter),
            State::Fourth => Action::Wait,
        }
    }

    /// The state reached from this one by `count` invocations.
    pub open spec fn after(self, count: nat) -> State
        decreases count,
    {
        if count == 0 {
            self
        } else {
            self.after((count - 1) as nat).successor()
        }
    }

    /// The commands emitted by `count` invocations from this state, in order.
    pub open spec fn emitted(self, count: nat) -> Seq<Command>
        decreases count,
    {
        if count == 0 {
            Seq::empty()
        } else {
            let before = self.emitted((count - 1) as nat);
            match self.after((count - 1) as nat).action() {
                Action::Emit(command) => before.push(command),
                Action::Wait => before,
            }
        }
    }

    /// The state at system start.
    pub fn start() -> (state: State)
        ensures
            state == State::initial(),
    {
        State::First
    }
}

impl Command {
    /// The command's text.
    pub open spec fn text_model(self) -> Seq<char> {
        match self {
            Command::NetworkId => "AT+NETWORKID=2"@,
            Command::Address => "AT+ADDRESS=2"@,
            Command::Parameter => "AT+PARAMETER=8,7,4,7"@,
        }
    }

    /// The command as the radio's line protocol takes it: the text, a
    /// carriage return and a line feed.
    pub open spec fn line_model(self) -> Seq<char> {
        match self {
            Command::NetworkId => "AT+NETWORKID=2\r\n"@,
            Command::Address => "AT+ADDRESS=2\r\n"@,
            Command::Parameter => "AT+PARAMETER=8,7,4,7\r\n"@,
        }
    }

    /// The command's text.
    pub fn text(self) -> (text: &'static str)
        ensures
            text@ == self.text_model(),
    {
        match self {
            Command::NetworkId => "AT+NETWORKID=2",
            Command::Address => "AT+ADDRESS=2",
            Command::Parameter => "AT+PARAMETER=8,7,4,7",
        }
    }

    /// The command as the radio's line protocol takes it: the text, a
    /// carriage return and a line feed.
    pub fn line(self) -> (line: &'static str)
        ensures
            line@ == self.line_model(),
    {
        match self {
            Command::NetworkId => "AT+NETWORKID=2\r\n",
            Command::Address => "AT+ADDRESS=2\r\n",
            Command::Parameter => "AT+PARAMETER=8,7,4,7\r\n",
        }
    }
}

/// The transition function: the action of `state` and the state that follows.
pub fn step(state: State) -> (outcome: (Action, State))
    ensures
        outcome.0 == state.action(),
        outcome.1 == state.successor(),
{
    match state {
        State::First => (Action::Emit(Command::NetworkId), State::Second),
        State::Second => (Action::Emit(Command::Address), State::Third),
        State::Third => (Action::Emit(Command::Parameter), State::Fourth),
        State::Fourth => (Action::Wait, State::Fourth),
    }
}

/// One invocation of the sequencer: performs exactly one transition, and
/// tells the caller the one action to perform and the delay after which to
/// invoke the sequencer again. The delay is the same in every state.
pub fn sequence_call(state: &mut State) -> (invocation: Invocation)
    ensures
        invocation.action == old(state).action(),
        invocation.rearm_ticks == REARM_DELAY_TICKS,
        *final(state) == old(state).successor(),
{
    let (action, next) = step(*state);
    *state = next;
    Invocation { action, rearm_ticks: REARM_DELAY_TICKS }
}

/// From any state, `count` invocations lead to the state that many steps
/// further, the final state holding all that would lie beyond it.
pub proof fn lemma_after(state: State, count: nat)
    ensures
        state.after(count) == match state {
            State::First => if count == 0 {
                State::First
            } else if count == 1 {
                State::Second
            } else if count == 2 {
                State::Third
            } else {
                State::Fourth
            },
            State::Second => if count == 0 {
                State::Second
            } else if count == 1 {
                State::Third
            } else {
                State::Fourth
            },
            State::Third => if count == 0 {
                State::Third
            } else {
                State::Fourth
            },
            State::Fourth => State::Fourth,
        },
    decreases count,
{
    if count > 0 {
        lemma_after(state, (count - 1) as nat);
    }
}

/// Determinism of the sequence: from the initial state, `count` invocations
/// emit the first `count` of the three commands, in their order, and nothing
/// after the third, however many invocations follow.
pub proof fn lemma_emitted_from_start(count: nat)
    ensures
        State::initial().emitted(count) == seq![
            Command::NetworkId,
            Command::Address,
            Command::Parameter,
        ].take(if count < 3 { count as int } else { 3 }),
        count >= 3 ==> State::initial().after(count) == State::Fourth,
    decreases count,
{
    let all = seq![Command::NetworkId, Command::Address, Command::Parameter];
    let start = State::initial();
    if count > 0 {
        let before = (count - 1) as nat;
        lemma_emitted_from_start(before);
        lemma_after(start, before);
        assert(start.emitted(count) =~= all.take(
            if count < 3 {
                count as int
            } else {
                3
            },
        ));
    }
}

/// The final state is absorbing: from it no invocation emits anything or
/// leaves it.
pub proof fn lemma_final_state_absorbs(count: nat)
    ensures
        State::Fourth.after(count) == State::Fourth,
        State::Fourth.emitted(count) == Seq::<Command>::empty(),
    decreases count,
{
    if count > 0 {
        lemma_final_state_absorbs((count - 1) as nat);
    }
}

} // verus!

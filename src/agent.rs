use vstd::prelude::*;

use crate::environment::Env;
use crate::position::Position;

verus! {

/// A move an agent may take; the environment fixes which ones are offered.
#[derive(Clone, Copy, Debug, PartialEq, Eq, Structural, Hash)]
pub enum Action {
    Up,
    Down,
    Left,
    Right,
}

/// What an agent currently perceives, or a constant that the environment
/// stores for agents to read.
#[derive(Clone, Copy, Debug, PartialEq, Eq, Structural)]
pub enum Value {
    Int(i64),
    Flag(bool),
    Cell(Position),
}

/// Whether the episode has ended.
pub type Done = bool;

/// What one transition of an agent yields: its new position, its next
/// state, the reward, and whether the episode is over.
pub type Transition = (Position, Value, i64, Done);

/// One call made on an agent, with what was handed to it and what came back.
pub enum AgentCall {
    ChooseAction { state: Value, actions: Seq<Action>, action: Action },
    Step { position: Position, state: Value, action: Action, transition: Transition },
    Update { state: Value, action: Action, reward: i64, next_state: Value, actions: Seq<Action> },
    UpdateState { next_state: Value },
}

/// An agent that the environment can run. Implementors keep a record of the
/// calls made on them; each method appends its own call to that record.
pub trait LearningAgent {
    /// The calls made on this agent so far, oldest first.
    spec fn calls(&self) -> Seq<AgentCall>;

    /// The state this agent currently holds.
    spec fn current_state(&self) -> Value;

    fn state(&self) -> (r: Value)
        ensures
            r == self.current_state(),
    ;

    /// Picks one of `actions` for `state`.
    fn choose_action(&mut self, state: &Value, actions: &Vec<Action>) -> (r: Action)
        ensures
            final(self).calls() == old(self).calls().push(
                AgentCall::ChooseAction { state: *state, actions: actions@, action: r },
            ),
            final(self).current_state() == old(self).current_state(),
    ;

    /// Computes what taking `action` from `position` in `state` leads to.
    fn step(&mut self, env: &Env, position: Position, state: &Value, action: &Action) -> (r:
        Transition)
        ensures
            final(self).calls() == old(self).calls().push(
                AgentCall::Step { position, state: *state, action: *action, transition: r },
            ),
            final(self).current_state() == old(self).current_state(),
    ;

    /// Learns from one transition.
    fn update(
        &mut self,
        state: &Value,
        action: &Action,
        reward: i64,
        next_state: &Value,
        actions: &Vec<Action>,
    )
        ensures
            final(self).calls() == old(self).calls().push(
                AgentCall::Update {
                    state: *state,
                    action: *action,
                    reward,
                    next_state: *next_state,
                    actions: actions@,
                },
            ),
            final(self).current_state() == old(self).current_state(),
    ;

    /// Takes `next_state` as the current state.
    fn update_state(&mut self, next_state: Value)
        ensures
            final(self).calls() == old(self).calls().push(AgentCall::UpdateState { next_state }),
            final(self).current_state() == next_state,
    ;
}

/// The calls that one turn of an agent makes, in order: choose an action,
/// compute the transition, learn from it, commit the next state.
pub open spec fn turn_calls(
    state: Value,
    actions: Seq<Action>,
    position: Position,
    action: Action,
    transition: Transition,
) -> Seq<AgentCall> {
    seq![
        AgentCall::ChooseAction { state, actions, action },
        AgentCall::Step { position, state, action, transition },
        AgentCall::Update {
            state,
            action,
            reward: transition.2,
            next_state: transition.1,
            actions,
        },
        AgentCall::UpdateState { next_state: transition.1 },
    ]
}

/// Copies a list of actions.
pub fn copy_actions(actions: &[Action]) -> (r: Vec<Action>)
    ensures
        r@ == actions@,
{
    let mut out: Vec<Action> = Vec::new();
    let mut j: usize = 0;
    while j < actions.len()
        invariant
            j <= actions@.len(),
            out@ == actions@.take(j as int),
        decreases actions@.len() - j,
    {
        out.push(actions[j]);
        j = j + 1;
        assert(out@ =~= actions@.take(j as int));
    }
    assert(actions@.take(actions@.len() as int) == actions@);
    out
}

/// A call made on an agent, as kept at run time.
#[derive(Debug, PartialEq)]
pub enum RecordedCall {
    ChooseAction { state: Value, actions: Vec<Action>, action: Action },
    Step { position: Position, state: Value, action: Action, transition: Transition },
    Update { state: Value, action: Action, reward: i64, next_state: Value, actions: Vec<Action> },
    UpdateState { next_state: Value },
}

impl View for RecordedCall {
    type V = AgentCall;

    open spec fn view(&self) -> AgentCall {
        match self {
            RecordedCall::ChooseAction { state, actions, action } => AgentCall::ChooseAction {
                state: *state,
                actions: actions@,
                action: *action,
            },
            RecordedCall::Step { position, state, action, transition } => AgentCall::Step {
                position: *position,
                state: *state,
                action: *action,
                transition: *transition,
            },
            RecordedCall::Update { state, action, reward, next_state, actions } => AgentCall::Update {
                state: *state,
                action: *action,
                reward: *reward,
                next_state: *next_state,
                actions: actions@,
            },
            RecordedCall::UpdateState { next_state } => AgentCall::UpdateState {
                next_state: *next_state,
            },
        }
    }
}

/// An agent that plays a fixed script: it always chooses `action`, every
/// transition it computes is `transition`, and it learns nothing. It keeps
/// each call made on it in `log`, which makes it a stand-in for a real agent
/// when a run is replayed or checked.
pub struct ScriptedAgent {
    pub state: Value,
    pub action: Action,
    pub transition: Transition,
    pub log: Vec<RecordedCall>,
}

impl ScriptedAgent {
    pub fn new(state: Value, action: Action, transition: Transition) -> (a: ScriptedAgent)
        ensures
            a.state == state,
            a.action == action,
            a.transition == transition,
            a.log@.len() == 0,
    {
        ScriptedAgent { state, action, transition, log: Vec::new() }
    }
}

impl LearningAgent for ScriptedAgent {
    open spec fn calls(&self) -> Seq<AgentCall> {
        self.log@.map_values(|c: RecordedCall| c@)
    }

    open spec fn current_state(&self) -> Value {
        self.state
    }

    fn state(&self) -> (r: Value) {
        self.state
    }

    fn choose_action(&mut self, state: &Value, actions: &Vec<Action>) -> (r: Action) {
        let call = RecordedCall::ChooseAction {
            state: *state,
            actions: copy_actions(actions.as_slice()),
            action: self.action,
        };
        self.log.push(call);
        proof {
            assert(self.calls() =~= old(self).calls().push(call@));
        }
        self.action
    }

    fn step(&mut self, env: &Env, position: Position, state: &Value, action: &Action) -> (r:
        Transition) {
        let call = RecordedCall::Step {
            position,
            state: *state,
            action: *action,
            transition: self.transition,
        };
        self.log.push(call);
        proof {
            assert(self.calls() =~= old(self).calls().push(call@));
        }
        self.transition
    }

    fn update(
        &mut self,
        state: &Value,
        action: &Action,
        reward: i64,
        next_state: &Value,
        actions: &Vec<Action>,
    ) {
        let call = RecordedCall::Update {
            state: *state,
            action: *action,
            reward,
            next_state: *next_state,
            actions: copy_actions(actions.as_slice()),
        };
        self.log.push(call);
        proof {
            assert(self.calls() =~= old(self).calls().push(call@));
        }
    }

    fn update_state(&mut self, next_state: Value) {
        let call = RecordedCall::UpdateState { next_state };
        self.log.push(call);
        self.state = next_state;
        proof {
            assert(self.calls() =~= old(self).calls().push(call@));
        }
    }
}

} // verus!

use vstd::prelude::*;

verus! {

/// The phases of the application's life. Exactly one is current at a time.
#[derive(Debug, Clone, Copy, PartialEq, Eq, Hash, Structural)]
pub enum AppState {
    Setup,
    AssetLoading,
    Loading,
    InGame,
    LevelDone,
    Finished,
}

impl Default for AppState {
    fn default() -> (s: AppState)
        ensures
            s == AppState::Setup,
    {
        AppState::Setup
    }
}

/// The number of application states.
pub const STATE_COUNT: usize = 6;

impl AppState {
    /// The state's place in the declaration, from 0.
    pub open spec fn ordinal(self) -> nat {
        match self {
            AppState::Setup => 0,
            AppState::AssetLoading => 1,
            AppState::Loading => 2,
            AppState::InGame => 3,
            AppState::LevelDone => 4,
            AppState::Finished => 5,
        }
    }

    /// The state's place in the declaration, from 0.
    pub fn index(&self) -> (i: usize)
        ensures
            i == self.ordinal(),
            i < STATE_COUNT,
    {
        match self {
            AppState::Setup => 0,
            AppState::AssetLoading => 1,
            AppState::Loading => 2,
            AppState::InGame => 3,
            AppState::LevelDone => 4,
            AppState::Finished => 5,
        }
    }

    /// The state at place `i`; `None` when `i` is not below `STATE_COUNT`.
    pub fn from_index(i: usize) -> (s: Option<AppState>)
        ensures
            i < STATE_COUNT ==> s is Some && s->0.ordinal() == i,
            i >= STATE_COUNT ==> s is None,
    {
        match i {
            0 => Some(AppState::Setup),
            1 => Some(AppState::AssetLoading),
            2 => Some(AppState::Loading),
            3 => Some(AppState::InGame),
            4 => Some(AppState::LevelDone),
            5 => Some(AppState::Finished),
            _ => None,
        }
    }
}

/// When a system runs: once as a state is entered, every tick while it is
/// current, or once as it is left.
#[derive(Debug, Clone, Copy, PartialEq, Eq, Hash, Structural)]
pub enum Gate {
    OnEnter(AppState),
    OnUpdate(AppState),
    OnExit(AppState),
}

/// The number of gates: three for each state.
pub const GATE_COUNT: usize = 18;

impl Gate {
    /// This gate's number: three times the state's place, plus 0 for enter,
    /// 1 for update, 2 for exit.
    pub open spec fn ordinal(self) -> nat {
        match self {
            Gate::OnEnter(s) => 3 * s.ordinal(),
            Gate::OnUpdate(s) => 3 * s.ordinal() + 1,
            Gate::OnExit(s) => 3 * s.ordinal() + 2,
        }
    }

    /// This gate's number, below `GATE_COUNT`; different gates have different numbers.
    pub fn index(&self) -> (i: usize)
        ensures
            i == self.ordinal(),
            i < GATE_COUNT,
    {
        match self {
            Gate::OnEnter(s) => 3 * s.index(),
            Gate::OnUpdate(s) => 3 * s.index() + 1,
            Gate::OnExit(s) => 3 * s.index() + 2,
        }
    }

    /// A gate by its number `i`; `None` when `i` is not below `GATE_COUNT`.
    pub fn from_index(i: usize) -> (g: Option<Gate>)
        ensures
            i < GATE_COUNT ==> g is Some && g->0.ordinal() == i,
            i >= GATE_COUNT ==> g is None,
    {
        match AppState::from_index(i / 3) {
            None => None,
            Some(s) => {
                if i % 3 == 0 {
                    Some(Gate::OnEnter(s))
                } else if i % 3 == 1 {
                    Some(Gate::OnUpdate(s))
                } else {
                    Some(Gate::OnExit(s))
                }
            },
        }
    }
}

/// Gates with the same number are the same gate.
pub proof fn lemma_gate_ordinal_injective(a: Gate, b: Gate)
    requires
        a.ordinal() == b.ordinal(),
    ensures
        a == b,
{
}

/// What the state machine holds, as mathematics.
pub struct MachineModel {
    /// The current state.
    pub current: AppState,
    /// The state asked for since the last change, if any.
    pub pending: Option<AppState>,
    /// Whether the current state was entered yet; false only before the
    /// first tick.
    pub started: bool,
}

impl MachineModel {
    /// The machine after `next` was asked for: a later request replaces an
    /// earlier one that was not applied yet.
    pub open spec fn requested(self, next: AppState) -> Self {
        MachineModel { pending: Some(next), ..self }
    }

    /// The hooks that fire when the machine advances, in order: on a pending
    /// request the exit of the current state, if it was entered, then the
    /// enter of the next; with none pending only the enter of the initial
    /// state, before the first tick.
    pub open spec fn hooks(self) -> Seq<Gate> {
        match self.pending {
            Some(next) => if self.started {
                seq![Gate::OnExit(self.current), Gate::OnEnter(next)]
            } else {
                seq![Gate::OnEnter(next)]
            },
            None => if self.started {
                Seq::empty()
            } else {
                seq![Gate::OnEnter(self.current)]
            },
        }
    }

    /// The machine after it advanced: the pending state, if any, is current.
    pub open spec fn advanced(self) -> Self {
        MachineModel {
            current: match self.pending {
                Some(next) => next,
                None => self.current,
            },
            pending: None,
            started: true,
        }
    }

    /// The hooks fired over a run of ticks, where `requests[i]` is the state
    /// asked for during tick `i`, if any, and the machine advances after
    /// each tick.
    pub open spec fn trace(self, requests: Seq<Option<AppState>>) -> Seq<Gate>
        decreases requests.len(),
    {
        if requests.len() == 0 {
            Seq::empty()
        } else {
            let asked = match requests[0] {
                Some(next) => self.requested(next),
                None => self,
            };
            asked.hooks() + asked.advanced().trace(requests.skip(1))
        }
    }

    /// The number of transitions into `state` over such a run.
    pub open spec fn entries(self, requests: Seq<Option<AppState>>, state: AppState) -> nat
        decreases requests.len(),
    {
        if requests.len() == 0 {
            0
        } else {
            let asked = match requests[0] {
                Some(next) => self.requested(next),
                None => self,
            };
            let here: nat = if asked.pending == Some(state) {
                1
            } else {
                0
            };
            here + asked.advanced().entries(requests.skip(1), state)
        }
    }

    /// The number of transitions out of `state` over such a run.
    pub open spec fn departures(self, requests: Seq<Option<AppState>>, state: AppState) -> nat
        decreases requests.len(),
    {
        if requests.len() == 0 {
            0
        } else {
            let asked = match requests[0] {
                Some(next) => self.requested(next),
                None => self,
            };
            let here: nat = if asked.pending is Some && asked.current == state {
                1
            } else {
                0
            };
            here + asked.advanced().departures(requests.skip(1), state)
        }
    }
}

/// How often `gate` occurs in `gates`.
pub open spec fn occurrences(gates: Seq<Gate>, gate: Gate) -> nat
    decreases gates.len(),
{
    if gates.len() == 0 {
        0
    } else {
        let here: nat = if gates[0] == gate {
            1
        } else {
            0
        };
        here + occurrences(gates.skip(1), gate)
    }
}

/// Occurrences add up over a concatenation.
pub proof fn lemma_occurrences_concat(a: Seq<Gate>, b: Seq<Gate>, gate: Gate)
    ensures
        occurrences(a + b, gate) == occurrences(a, gate) + occurrences(b, gate),
    decreases a.len(),
{
    if a.len() == 0 {
        assert(a + b =~= b);
    } else {
        assert((a + b).skip(1) =~= a.skip(1) + b);
        lemma_occurrences_concat(a.skip(1), b, gate);
    }
}

/// Enter and exit hooks fire exactly once per transition. Over any run of
/// ticks of a machine that has entered its current state and has no request
/// pending, the enter hook of a state fires as often as the machine moved
/// into that state, and its exit hook as often as the machine moved out of
/// it: never on a tick without a transition, never twice for one.
pub proof fn lemma_hooks_once_per_transition(
    m: MachineModel,
    requests: Seq<Option<AppState>>,
    state: AppState,
)
    requires
        m.started,
        m.pending is None,
    ensures
        occurrences(m.trace(requests), Gate::OnEnter(state)) == m.entries(requests, state),
        occurrences(m.trace(requests), Gate::OnExit(state)) == m.departures(requests, state),
    decreases requests.len(),
{
    if requests.len() > 0 {
        let asked = match requests[0] {
            Some(next) => m.requested(next),
            None => m,
        };
        let rest = asked.advanced().trace(requests.skip(1));
        lemma_hooks_once_per_transition(asked.advanced(), requests.skip(1), state);
        lemma_occurrences_concat(asked.hooks(), rest, Gate::OnEnter(state));
        lemma_occurrences_concat(asked.hooks(), rest, Gate::OnExit(state));
        reveal_with_fuel(occurrences, 3);
        match asked.pending {
            Some(next) => {
                let h = asked.hooks();
                assert(h.skip(1) =~= seq![Gate::OnEnter(next)]);
                assert(h.skip(1).skip(1) =~= Seq::<Gate>::empty());
            },
            None => {},
        }
    }
}

/// The application's state machine. A system asks for a transition; the
/// request is applied when the machine next advances, between two ticks.
pub struct StateMachine {
    pub(crate) current: AppState,
    pub(crate) pending: Option<AppState>,
    pub(crate) started: bool,
}

impl View for StateMachine {
    type V = MachineModel;

    open(crate) spec fn view(&self) -> MachineModel {
        MachineModel { current: self.current, pending: self.pending, started: self.started }
    }
}

impl StateMachine {
    /// A machine whose current state is `initial`, not entered yet, with no
    /// request pending.
    pub fn new(initial: AppState) -> (m: StateMachine)
        ensures
            m@ == (MachineModel { current: initial, pending: None, started: false }),
    {
        StateMachine { current: initial, pending: None, started: false }
    }

    /// The current state.
    pub fn current(&self) -> (s: AppState)
        ensures
            s == self@.current,
    {
        self.current
    }

    /// The state asked for and not yet applied, if any.
    pub fn pending(&self) -> (s: Option<AppState>)
        ensures
            s == self@.pending,
    {
        self.pending
    }

    /// Asks for `next` to become current when the machine next advances. Of
    /// several requests before that point the last one wins.
    pub fn request_transition(&mut self, next: AppState)
        ensures
            final(self)@ == old(self)@.requested(next),
    {
        self.pending = Some(next);
    }

    /// Advances the machine between two ticks and returns the hooks to fire,
    /// in order. With a request pending: the exit of the current state, then
    /// that state gives way to the pending one, whose enter follows. Before
    /// the first tick the enter of the initial state fires. Otherwise nothing
    /// fires and nothing changes.
    pub fn advance(&mut self) -> (hooks: Vec<Gate>)
        ensures
            hooks@ == old(self)@.hooks(),
            final(self)@ == old(self)@.advanced(),
    {
        let mut hooks: Vec<Gate> = Vec::new();
        match self.pending {
            Some(next) => {
                if self.started {
                    hooks.push(Gate::OnExit(self.current));
                }
                hooks.push(Gate::OnEnter(next));
                self.current = next;
            },
            None => {
                if !self.started {
                    hooks.push(Gate::OnEnter(self.current));
                }
            },
        }
        self.pending = None;
        self.started = true;
        assert(hooks@ =~= old(self)@.hooks());
        hooks
    }

    /// Which gate the systems run under on every tick spent in the current state.
    pub fn update_gate(&self) -> (g: Gate)
        ensures
            g == Gate::OnUpdate(self@.current),
    {
        Gate::OnUpdate(self.current)
    }
}

} // verus!

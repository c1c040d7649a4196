use vstd::laws_eq::obeys_concrete_eq;
use vstd::prelude::*;

pub use crate::lifecycle::Surface;

use crate::lifecycle::{
    entered_before, exited_before, lemma_push, lifecycle_ok, live_at, Event, Hook,

};
use crate::progress::{
    elapsed_fraction, lemma_remaining_at_most_one, remaining_fraction, tick, PROGRESS_ONE,
};
use crate::viewport::{letterbox, letterbox_spec, RenderTargetSize, Viewport};

verus! {

/// Length of a transition, in microseconds.
#[derive(Clone, Copy, Debug, PartialEq, Eq, Structural)]
pub struct TransitionTime(pub u64);

/// What a state's update asks of the controller: switch to another state at
/// once, or crossfade into it over a given time with the mask registered
/// for a transition kind.
pub enum StateManagerCommand<T, St> {
    ChangeState(St),
    ChangeStateEx(St, TransitionTime, T),
}

/// The lifecycle an application state implements. `S` is the payload that
/// the controller owns and lends to every call.
pub trait State<T, S>: Sized {
    /// Called once, when the state becomes current or starts coming in.
    fn on_enter(&mut self, payload: &mut S) {
    }

    /// Called once, when the state stops being current or is dropped while
    /// coming in.
    fn on_exit(&mut self, payload: &mut S) {
    }

    /// Called once a frame while the state is current and no transition
    /// runs; `delta_time` is in microseconds.
    fn on_update(&mut self, delta_time: u64, payload: &mut S) -> Option<
        StateManagerCommand<T, Self>,
    >;

    /// Called once a frame to draw the state into the given surface.
    fn on_draw(&mut self, surface: Surface, payload: &mut S) {
    }
}

/// A misconfiguration that the controller refuses to run with.
#[derive(Debug, PartialEq, Eq)]
pub enum ConfigError<T> {
    /// No transition kind, and so no mask, was registered.
    EmptyTextureMap,
    /// A state asked for a transition kind that has no mask.
    UnknownTransition(T),
}

/// What one call of `StateManager::update` did.
#[derive(Debug, PartialEq, Eq)]
pub enum UpdateStep<Tex> {
    /// A transition ran on and is not over yet.
    Transitioning,
    /// A transition ended: the outgoing state exited and the incoming state
    /// became the current one.
    HandedOff,
    /// The current state updated and asked for nothing.
    Unchanged,
    /// The current state was replaced at once.
    Changed,
    /// A transition began; `Some` carries the mask texture to bind first.
    TransitionStarted(Option<Tex>),
}

/// What the host renders this frame: the blend factor for compositing the
/// two surfaces while a transition runs (in units of `PROGRESS_ONE`), and
/// where the current surface goes on the output.
#[derive(Clone, Copy, Debug, PartialEq, Eq)]
pub struct Frame {
    pub blend: Option<u32>,
    pub viewport: Viewport,
}

/// A running transition: the time left, the time it started with, and the
/// state it leads into.
pub struct TransitioningData<St> {
    time_left: u64,
    start_time: u64,
    into_state: St,
    into_id: Ghost<nat>,
}

impl<St> TransitioningData<St> {
    pub closed spec fn spec_time_left(&self) -> nat {
        self.time_left as nat
    }

    pub closed spec fn spec_start_time(&self) -> nat {
        self.start_time as nat
    }

    pub closed spec fn wf(&self) -> bool {
        self.time_left <= self.start_time
    }

    pub fn time_left(&self) -> (r: u64)
        ensures
            r == self.spec_time_left(),
    {
        self.time_left
    }

    pub fn start_time(&self) -> (r: u64)
        ensures
            r == self.spec_start_time(),
    {
        self.start_time
    }

    /// Fraction of the transition still to run, in units of `PROGRESS_ONE`.
    pub fn progress(&self) -> (r: u32)
        requires
            self.wf(),
        ensures
            r == remaining_fraction(self.spec_time_left(), self.spec_start_time()),
            r <= PROGRESS_ONE,
    {
        proof {
            lemma_remaining_at_most_one(self.time_left as nat, self.start_time as nat);
        }
        if self.start_time == 0 {
            0
        } else {
            let scaled = self.time_left as u128 * PROGRESS_ONE as u128;
            (scaled / self.start_time as u128) as u32
        }
    }
}

/// Whether a transition is running.
pub enum TransitionState<St> {
    Idle,
    Active(TransitioningData<St>),
}

impl<St> Default for TransitionState<St> {
    fn default() -> (r: Self)
        ensures
            r is Idle,
    {
        TransitionState::Idle
    }
}

impl<St> TransitionState<St> {
    /// Moves the transition out, leaving `Idle` behind.
    pub fn take(&mut self) -> (r: Self)
        ensures
            r == *old(self),
            *final(self) == TransitionState::<St>::Idle,
    {
        let mut r = TransitionState::Idle;
        std::mem::swap(self, &mut r);
        r
    }
}

/// The kind is in the table of masks.
pub open spec fn registered<T, Tex>(masks: Seq<(T, Tex)>, kind: T) -> bool {
    exists|i: int| 0 <= i < masks.len() && #[trigger] masks[i].0 == kind
}

/// `i` is the first entry of the table for the kind.
pub open spec fn first_entry<T, Tex>(masks: Seq<(T, Tex)>, kind: T, i: int) -> bool {
    &&& 0 <= i < masks.len()
    &&& masks[i].0 == kind
    &&& forall|j: int| 0 <= j < i ==> #[trigger] masks[j].0 != kind
}

/// The mask registered for a kind: that of its first entry in the table.
pub open spec fn mask_for<T, Tex>(masks: Seq<(T, Tex)>, kind: T) -> Tex {
    masks[choose|i: int| first_entry(masks, kind, i)].1
}

/// The mask registered for a kind is that of the first entry for it.
pub proof fn lemma_first_entry<T, Tex>(masks: Seq<(T, Tex)>, kind: T, i: int)
    requires
        first_entry(masks, kind, i),
    ensures
        mask_for(masks, kind) == masks[i].1,
{
    let k = choose|k: int| first_entry(masks, kind, k);
    assert(first_entry(masks, kind, k));
    if k < i {
        assert(masks[k].0 != kind);
    }
    if i < k {
        assert(masks[i].0 != kind);
    }
}

proof fn lemma_ids_below(log: Seq<Event>, e: Event, next: nat)
    requires
        forall|i: int| 0 <= i < log.len() ==> #[trigger] log[i].1 < next,
        e.1 < next,
    ensures
        forall|i: int| 0 <= i < log.push(e).len() ==> #[trigger] log.push(e)[i].1 < next,
{
    assert forall|i: int| 0 <= i < log.push(e).len() implies #[trigger] log.push(e)[i].1 < next by {
        if i < log.len() {
            assert(log.push(e)[i] == log[i]);
        }
    }
}

proof fn lemma_fresh(log: Seq<Event>, next: nat)
    requires
        forall|i: int| 0 <= i < log.len() ==> #[trigger] log[i].1 < next,
    ensures
        !entered_before(log, next, log.len() as int),
        !exited_before(log, next, log.len() as int),
{
    if entered_before(log, next, log.len() as int) {
        let i = choose|i: int| 0 <= i < log.len() && log[i] == (Hook::Enter, next);
        assert(log[i].1 < next);
    }
    if exited_before(log, next, log.len() as int) {
        let i = choose|i: int| 0 <= i < log.len() && log[i] == (Hook::Exit, next);
        assert(log[i].1 < next);
    }
}

/// The state machine that owns the current application state and, during a
/// transition, the incoming one; it calls their lifecycle hooks and decides
/// what each frame renders.
///
/// `T` is the transition kind, `S` the payload lent to every hook, `St` the
/// state type and `Tex` the mask texture handle.
pub struct StateManager<T, S, St, Tex> {
    current_state: St,
    transition_state: TransitionState<St>,
    last_transition_data: T,
    pub shared_data: S,
    rendertarget_size: RenderTargetSize,
    transition_texture_map: Vec<(T, Tex)>,
    current_id: Ghost<nat>,
    next_id: Ghost<nat>,
    events: Ghost<Seq<Event>>,
}

/// The frame that a controller in the given condition asks for.
pub open spec fn frame_of(
    phase: Option<(nat, nat)>,
    size: RenderTargetSize,
    screen_width: u32,
    screen_height: u32,
) -> Frame {
    Frame {
        blend: match phase {
            Some((t, total)) => Some(elapsed_fraction(t, total) as u32),
            None => None,
        },
        viewport: letterbox_spec(size, screen_width, screen_height),
    }
}

impl<T: Copy + PartialEq, S, St: State<T, S>, Tex: Copy> StateManager<T, S, St, Tex> {
    /// `Some((time_left, total_time))` while a transition runs.
    pub closed spec fn phase(&self) -> Option<(nat, nat)> {
        match self.transition_state {
            TransitionState::Idle => None,
            TransitionState::Active(d) => Some((d.time_left as nat, d.start_time as nat)),
        }
    }

    /// Every hook called so far, in order, with the serial number of the
    /// state it was called on.
    pub closed spec fn log(&self) -> Seq<Event> {
        self.events@
    }

    pub closed spec fn current_id(&self) -> nat {
        self.current_id@
    }

    pub closed spec fn incoming_id(&self) -> nat {
        match self.transition_state {
            TransitionState::Idle => 0,
            TransitionState::Active(d) => d.into_id@,
        }
    }

    pub closed spec fn masks(&self) -> Seq<(T, Tex)> {
        self.transition_texture_map@
    }

    /// The kind whose mask the compositor has bound.
    pub closed spec fn bound_kind(&self) -> T {
        self.last_transition_data
    }

    pub closed spec fn size(&self) -> RenderTargetSize {
        self.rendertarget_size
    }

    pub closed spec fn wf(&self) -> bool {
        &&& obeys_concrete_eq::<T>()
        &&& self.transition_texture_map@.len() > 0
        &&& registered(self.transition_texture_map@, self.last_transition_data)
        &&& lifecycle_ok(self.events@)
        &&& forall|i: int| 0 <= i < self.events@.len() ==> #[trigger] self.events@[i].1 < self.next_id@
        &&& self.current_id@ < self.next_id@
        &&& live_at(self.events@, self.current_id@, self.events@.len() as int)
        &&& match self.transition_state {
            TransitionState::Idle => true,
            TransitionState::Active(d) => {
                &&& d.wf()
                &&& d.into_id@ < self.next_id@
                &&& d.into_id@ != self.current_id@
                &&& live_at(self.events@, d.into_id@, self.events@.len() as int)
            },
        }
    }

    /// Builds a controller around the initial state and enters it. The first
    /// entry of the mask table is the one bound to begin with.
    pub fn new(
        initial_state: St,
        rendertarget_size: RenderTargetSize,
        shared_data: S,
        transition_texture_map: Vec<(T, Tex)>,
    ) -> (r: Result<Self, ConfigError<T>>)
        requires
            obeys_concrete_eq::<T>(),
        ensures
            transition_texture_map@.len() == 0 <==> r is Err,
            r is Err ==> r == Err::<Self, ConfigError<T>>(ConfigError::EmptyTextureMap),
            r matches Ok(m) ==> {
                &&& m.wf()
                &&& m.phase() is None
                &&& m.masks() == transition_texture_map@
                &&& m.bound_kind() == transition_texture_map@[0].0
                &&& m.size() == rendertarget_size
                &&& m.log() == seq![(Hook::Enter, m.current_id())]
            },
    {
        if transition_texture_map.len() == 0 {
            return Err(ConfigError::EmptyTextureMap);
        }
        let first = transition_texture_map[0].0;
        let mut m = StateManager {
            current_state: initial_state,
            transition_state: TransitionState::Idle,
            last_transition_data: first,
            shared_data,
            rendertarget_size,
            transition_texture_map,
            current_id: Ghost(0),
            next_id: Ghost(1),
            events: Ghost(Seq::empty().push((Hook::Enter, 0nat))),
        };
        m.current_state.on_enter(&mut m.shared_data);
        proof {
            assert(m.transition_texture_map@[0].0 == first);
            assert(m.events@[0] == (Hook::Enter, 0nat));
            assert(entered_before(m.events@, 0, 1));
            assert(!exited_before(m.events@, 0, 1));
            assert(!entered_before(m.events@, 0, 0));
        }
        Ok(m)
    }

    /// Whether a mask is registered for the kind.
    pub fn is_registered(&self, kind: T) -> (r: bool)
        requires
            self.wf(),
        ensures
            r == registered(self.masks(), kind),
    {
        self.find_mask(kind).is_some()
    }

    fn find_mask(&self, kind: T) -> (r: Option<Tex>)
        requires
            obeys_concrete_eq::<T>(),
        ensures
            r is Some <==> registered(self.masks(), kind),
            r matches Some(tex) ==> tex == mask_for(self.masks(), kind),
    {
        let mut i: usize = 0;
        while i < self.transition_texture_map.len()
            invariant
                obeys_concrete_eq::<T>(),
                i <= self.transition_texture_map@.len(),
                forall|j: int| 0 <= j < i ==> #[trigger] self.transition_texture_map@[j].0 != kind,
            decreases self.transition_texture_map@.len() - i,
        {
            proof {
                reveal(obeys_concrete_eq);
            }
            let entry_kind = self.transition_texture_map[i].0;
            if entry_kind == kind {
                proof {
                    lemma_first_entry(self.transition_texture_map@, kind, i as int);
                }
                return Some(self.transition_texture_map[i].1);
            }
            i = i + 1;
        }
        None
    }

    /// Exits the current state and enters `state` in its place, at once.
    /// A running transition is left as it is.
    pub fn change_state(&mut self, state: St)
        requires
            old(self).wf(),
        ensures
            final(self).wf(),
            final(self).phase() == old(self).phase(),
            final(self).incoming_id() == old(self).incoming_id(),
            final(self).masks() == old(self).masks(),
            final(self).bound_kind() == old(self).bound_kind(),
            final(self).size() == old(self).size(),
            !entered_before(old(self).log(), final(self).current_id(), old(self).log().len() as int),
            final(self).log() == old(self).log().push((Hook::Exit, old(self).current_id())).push(
                (Hook::Enter, final(self).current_id()),
            ),
    {
        let ghost log0 = self.events@;
        let ghost cur = self.current_id@;
        let ghost fresh = self.next_id@;
        self.current_state.on_exit(&mut self.shared_data);
        proof {
            lemma_push(log0, (Hook::Exit, cur));
            lemma_ids_below(log0, (Hook::Exit, cur), fresh);
            lemma_fresh(log0.push((Hook::Exit, cur)), fresh);
            lemma_push(log0.push((Hook::Exit, cur)), (Hook::Enter, fresh));
            lemma_ids_below(log0.push((Hook::Exit, cur)), (Hook::Enter, fresh), fresh + 1);
            lemma_fresh(log0, fresh);
        }
        self.events = Ghost(log0.push((Hook::Exit, cur)).push((Hook::Enter, fresh)));
        self.current_state = state;
        self.current_id = Ghost(fresh);
        self.next_id = Ghost(fresh + 1);
        self.current_state.on_enter(&mut self.shared_data);
    }

    /// Enters `state` and starts a transition into it that lasts `time`,
    /// with the mask registered for `transition_data`. The mask is handed
    /// back for binding when it belongs to another kind than the bound one.
    /// An incoming state that a running transition led into is exited and
    /// dropped first.
    pub fn change_state_ex(&mut self, state: St, time: TransitionTime, transition_data: T) -> (r:
        Option<Tex>)
        requires
            old(self).wf(),
            registered(old(self).masks(), transition_data),
        ensures
            final(self).wf(),
            r == (if transition_data == old(self).bound_kind() {
                None
            } else {
                Some(mask_for(old(self).masks(), transition_data))
            }),
            final(self).bound_kind() == transition_data,
            final(self).phase() == Some((time.0 as nat, time.0 as nat)),
            final(self).current_id() == old(self).current_id(),
            final(self).masks() == old(self).masks(),
            final(self).size() == old(self).size(),
            !entered_before(old(self).log(), final(self).incoming_id(), old(self).log().len() as int),
            final(self).log() == (match old(self).phase() {
                None => old(self).log(),
                Some(_) => old(self).log().push((Hook::Exit, old(self).incoming_id())),
            }).push((Hook::Enter, final(self).incoming_id())),
    {
        proof {
            reveal(obeys_concrete_eq);
        }
        let mut rebind: Option<Tex> = None;
        if self.last_transition_data != transition_data {
            rebind = self.find_mask(transition_data);
        }
        self.last_transition_data = transition_data;
        let ghost log0 = self.events@;
        let ghost fresh = self.next_id@;
        let previous = self.transition_state.take();
        if let TransitionState::Active(mut d) = previous {
            let ghost gone = d.into_id@;
            d.into_state.on_exit(&mut self.shared_data);
            proof {
                lemma_push(log0, (Hook::Exit, gone));
                lemma_ids_below(log0, (Hook::Exit, gone), fresh);
            }
            self.events = Ghost(log0.push((Hook::Exit, gone)));
        }
        let ghost log1 = self.events@;
        proof {
            lemma_fresh(log0, fresh);
            lemma_fresh(log1, fresh);
            lemma_push(log1, (Hook::Enter, fresh));
            lemma_ids_below(log1, (Hook::Enter, fresh), fresh + 1);
        }
        let mut state = state;
        state.on_enter(&mut self.shared_data);
        self.events = Ghost(log1.push((Hook::Enter, fresh)));
        self.next_id = Ghost(fresh + 1);
        self.transition_state = TransitionState::Active(
            TransitioningData {
                time_left: time.0,
                start_time: time.0,
                into_state: state,
                into_id: Ghost(fresh),
            },
        );
        rebind
    }

    /// Carries out what the current state's update asked for, while no
    /// transition runs: nothing, an immediate change, or the start of a
    /// transition, which needs a registered kind and otherwise changes
    /// nothing and reports the kind.
    pub fn apply_command(&mut self, command: Option<StateManagerCommand<T, St>>) -> (r: Result<
        UpdateStep<Tex>,
        ConfigError<T>,
    >)
        requires
            old(self).wf(),
            old(self).phase() is None,
        ensures
            final(self).wf(),
            final(self).masks() == old(self).masks(),
            final(self).size() == old(self).size(),
            command is None ==> {
                &&& r == Ok::<UpdateStep<Tex>, ConfigError<T>>(UpdateStep::Unchanged)
                &&& final(self).phase() is None
                &&& final(self).current_id() == old(self).current_id()
                &&& final(self).bound_kind() == old(self).bound_kind()
                &&& final(self).log() == old(self).log()
            },
            command matches Some(StateManagerCommand::ChangeState(_)) ==> {
                &&& r == Ok::<UpdateStep<Tex>, ConfigError<T>>(UpdateStep::Changed)
                &&& final(self).phase() is None
                &&& final(self).bound_kind() == old(self).bound_kind()
                &&& !entered_before(
                    old(self).log(),
                    final(self).current_id(),
                    old(self).log().len() as int,
                )
                &&& final(self).log() == old(self).log().push(
                    (Hook::Exit, old(self).current_id()),
                ).push((Hook::Enter, final(self).current_id()))
            },
            command matches Some(StateManagerCommand::ChangeStateEx(_, time, kind)) ==> {
                if registered(old(self).masks(), kind) {
                    &&& r == Ok::<UpdateStep<Tex>, ConfigError<T>>(
                        UpdateStep::TransitionStarted(
                            if kind == old(self).bound_kind() {
                                None
                            } else {
                                Some(mask_for(old(self).masks(), kind))
                            },
                        ),
                    )
                    &&& final(self).phase() == Some((time.0 as nat, time.0 as nat))
                    &&& final(self).bound_kind() == kind
                    &&& final(self).current_id() == old(self).current_id()
                    &&& !entered_before(
                        old(self).log(),
                        final(self).incoming_id(),
                        old(self).log().len() as int,
                    )
                    &&& final(self).log() == old(self).log().push(
                        (Hook::Enter, final(self).incoming_id()),
                    )
                } else {
                    &&& r == Err::<UpdateStep<Tex>, ConfigError<T>>(
                        ConfigError::UnknownTransition(kind),
                    )
                    &&& final(self).phase() is None
                    &&& final(self).current_id() == old(self).current_id()
                    &&& final(self).bound_kind() == old(self).bound_kind()
                    &&& final(self).log() == old(self).log()
                }
            },
    {
        match command {
            None => Ok(UpdateStep::Unchanged),
            Some(StateManagerCommand::ChangeState(next)) => {
                self.change_state(next);
                Ok(UpdateStep::Changed)
            },
            Some(StateManagerCommand::ChangeStateEx(next, time, kind)) => {
                if self.is_registered(kind) {
                    let rebind = self.change_state_ex(next, time, kind);
                    Ok(UpdateStep::TransitionStarted(rebind))
                } else {
                    Err(ConfigError::UnknownTransition(kind))
                }
            },
        }
    }

    /// Advances one frame of `delta_time` microseconds.
    ///
    /// While a transition runs only its clock moves: when the time left
    /// drops below zero (or the transition has no length) the current state
    /// exits and the incoming one takes its place, and that state's first
    /// update comes on a later call. Otherwise the current state updates
    /// with `delta_time` and `apply_command` carries out what it asked for.
    pub fn update(&mut self, delta_time: u64) -> (r: Result<UpdateStep<Tex>, ConfigError<T>>)
        requires
            old(self).wf(),
        ensures
            final(self).wf(),
            final(self).masks() == old(self).masks(),
            final(self).size() == old(self).size(),
            old(self).phase() matches Some((t, total)) ==> {
                &&& final(self).bound_kind() == old(self).bound_kind()
                &&& match tick(t, total, delta_time as nat) {
                    None => {
                        &&& r == Ok::<UpdateStep<Tex>, ConfigError<T>>(UpdateStep::HandedOff)
                        &&& final(self).phase() is None
                        &&& final(self).current_id() == old(self).incoming_id()
                        &&& final(self).log() == old(self).log().push(
                            (Hook::Exit, old(self).current_id()),
                        )
                    },
                    Some(t2) => {
                        &&& r == Ok::<UpdateStep<Tex>, ConfigError<T>>(UpdateStep::Transitioning)
                        &&& final(self).phase() == Some((t2, total))
                        &&& final(self).current_id() == old(self).current_id()
                        &&& final(self).incoming_id() == old(self).incoming_id()
                        &&& final(self).log() == old(self).log()
                    },
                }
            },
            old(self).phase() is None ==> {
                let updated = old(self).log().push((Hook::Update(delta_time), old(self).current_id()));
                match r {
                    Ok(UpdateStep::Unchanged) => {
                        &&& final(self).phase() is None
                        &&& final(self).current_id() == old(self).current_id()
                        &&& final(self).bound_kind() == old(self).bound_kind()
                        &&& final(self).log() == updated
                    },
                    Ok(UpdateStep::Changed) => {
                        &&& final(self).phase() is None
                        &&& final(self).bound_kind() == old(self).bound_kind()
                        &&& !entered_before(updated, final(self).current_id(), updated.len() as int)
                        &&& final(self).log() == updated.push(
                            (Hook::Exit, old(self).current_id()),
                        ).push((Hook::Enter, final(self).current_id()))
                    },
                    Ok(UpdateStep::TransitionStarted(rebind)) => {
                        &&& final(self).phase() matches Some((t, total)) && t == total
                        &&& final(self).current_id() == old(self).current_id()
                        &&& registered(old(self).masks(), final(self).bound_kind())
                        &&& rebind == (if final(self).bound_kind() == old(self).bound_kind() {
                            None
                        } else {
                            Some(mask_for(old(self).masks(), final(self).bound_kind()))
                        })
                        &&& !entered_before(updated, final(self).incoming_id(), updated.len() as int)
                        &&& final(self).log() == updated.push(
                            (Hook::Enter, final(self).incoming_id()),
                        )
                    },
                    Err(ConfigError::UnknownTransition(kind)) => {
                        &&& !registered(old(self).masks(), kind)
                        &&& final(self).phase() is None
                        &&& final(self).current_id() == old(self).current_id()
                        &&& final(self).bound_kind() == old(self).bound_kind()
                        &&& final(self).log() == updated
                    },
                    _ => false,
                }
            },
    {
        let ghost log0 = self.events@;
        let ghost cur = self.current_id@;
        let ts = self.transition_state.take();
        match ts {
            TransitionState::Active(d) => {
                if delta_time > d.time_left || d.start_time == 0 {
                    self.current_state.on_exit(&mut self.shared_data);
                    proof {
                        lemma_push(log0, (Hook::Exit, cur));
                        lemma_ids_below(log0, (Hook::Exit, cur), self.next_id@);
                    }
                    self.events = Ghost(log0.push((Hook::Exit, cur)));
                    self.current_state = d.into_state;
                    self.current_id = d.into_id;
                    Ok(UpdateStep::HandedOff)
                } else {
                    let mut d = d;
                    d.time_left = d.time_left - delta_time;
                    self.transition_state = TransitionState::Active(d);
                    Ok(UpdateStep::Transitioning)
                }
            },
            TransitionState::Idle => {
                proof {
                    lemma_push(log0, (Hook::Update(delta_time), cur));
                    lemma_ids_below(log0, (Hook::Update(delta_time), cur), self.next_id@);
                }
                self.events = Ghost(log0.push((Hook::Update(delta_time), cur)));
                let command = self.current_state.on_update(delta_time, &mut self.shared_data);
                self.apply_command(command)
            },
        }
    }

    /// Renders a frame: the current state draws into the current surface
    /// and, while a transition runs, the incoming state into the staging
    /// surface. The result says how to composite and where the current
    /// surface goes on an output of the given size; nothing the controller
    /// decides by changes.
    pub fn draw(&mut self, screen_width: u32, screen_height: u32) -> (r: Frame)
        requires
            old(self).wf(),
        ensures
            final(self).wf(),
            draw_keeps(*old(self), *final(self)),
            r == frame_of(old(self).phase(), old(self).size(), screen_width, screen_height),
            r.blend matches Some(b) ==> b <= PROGRESS_ONE,
            final(self).log() == (match old(self).phase() {
                None => old(self).log().push((Hook::Draw(Surface::Current), old(self).current_id())),
                Some(_) => old(self).log().push(
                    (Hook::Draw(Surface::Current), old(self).current_id()),
                ).push((Hook::Draw(Surface::Staging), old(self).incoming_id())),
            }),
    {
        let ghost log0 = self.events@;
        let ghost cur = self.current_id@;
        self.current_state.on_draw(Surface::Current, &mut self.shared_data);
        proof {
            lemma_push(log0, (Hook::Draw(Surface::Current), cur));
            lemma_ids_below(log0, (Hook::Draw(Surface::Current), cur), self.next_id@);
        }
        self.events = Ghost(log0.push((Hook::Draw(Surface::Current), cur)));
        let blend = match &mut self.transition_state {
            TransitionState::Idle => None,
            TransitionState::Active(d) => {
                let ghost log1 = self.events@;
                let ghost inc = d.into_id@;
                d.into_state.on_draw(Surface::Staging, &mut self.shared_data);
                proof {
                    lemma_push(log1, (Hook::Draw(Surface::Staging), inc));
                    lemma_ids_below(log1, (Hook::Draw(Surface::Staging), inc), self.next_id@);
                }
                self.events = Ghost(log1.push((Hook::Draw(Surface::Staging), inc)));
                Some(PROGRESS_ONE - d.progress())
            },
        };
        Frame { blend, viewport: letterbox(self.rendertarget_size, screen_width, screen_height) }
    }

    /// Whether a transition is running.
    pub fn is_transitioning(&self) -> (r: bool)
        ensures
            r == self.phase() is Some,
    {
        match &self.transition_state {
            TransitionState::Idle => false,
            TransitionState::Active(_) => true,
        }
    }

    pub fn transition_state(&self) -> (r: &TransitionState<St>)
        requires
            self.wf(),
        ensures
            r is Idle <==> self.phase() is None,
            r matches TransitionState::Active(d) ==> self.phase() == Some(
                (d.spec_time_left(), d.spec_start_time()),
            ) && d.wf(),
    {
        &self.transition_state
    }

    pub fn rendertarget_size(&self) -> (r: RenderTargetSize)
        ensures
            r == self.size(),
    {
        self.rendertarget_size
    }
}

/// What a draw leaves unchanged: the transition, its clock, the states'
/// serial numbers, the masks and the surface size.
pub open spec fn draw_keeps<T: Copy + PartialEq, S, St: State<T, S>, Tex: Copy>(
    a: StateManager<T, S, St, Tex>,
    b: StateManager<T, S, St, Tex>,
) -> bool {
    &&& b.phase() == a.phase()
    &&& b.current_id() == a.current_id()
    &&& b.incoming_id() == a.incoming_id()
    &&& b.masks() == a.masks()
    &&& b.bound_kind() == a.bound_kind()
    &&& b.size() == a.size()
}

/// Drawing twice with no update between asks for the same frame both times.
pub proof fn lemma_draw_repeats<T: Copy + PartialEq, S, St: State<T, S>, Tex: Copy>(
    a: StateManager<T, S, St, Tex>,
    b: StateManager<T, S, St, Tex>,
    screen_width: u32,
    screen_height: u32,
)
    requires
        draw_keeps(a, b),
    ensures
        frame_of(b.phase(), b.size(), screen_width, screen_height) == frame_of(
            a.phase(),
            a.size(),
            screen_width,
            screen_height,
        ),
{
}

/// Every state the controller has held went through its lifecycle in order:
/// entered once, then updated and drawn only while live, and exited at most
/// once; the current state, and during a transition the incoming one, are
/// live.
pub proof fn lemma_lifecycle<T: Copy + PartialEq, S, St: State<T, S>, Tex: Copy>(
    m: StateManager<T, S, St, Tex>,
)
    requires
        m.wf(),
    ensures
        lifecycle_ok(m.log()),
        live_at(m.log(), m.current_id(), m.log().len() as int),
        m.phase() is Some ==> live_at(m.log(), m.incoming_id(), m.log().len() as int)
            && m.incoming_id() != m.current_id(),
{
}

} // verus!

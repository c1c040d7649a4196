use tantan_toolbox::progress::PROGRESS_ONE;
use tantan_toolbox::states::{
    ConfigError, State, StateManager, StateManagerCommand, Surface, TransitionState,
    TransitionTime, UpdateStep,
};
use tantan_toolbox::viewport::{RenderTargetSize, Viewport};

#[derive(Clone, Copy, Debug, PartialEq, Eq)]
enum Kind {
    Fade,
    Slide,
    Spiral,
}

type Command = StateManagerCommand<Kind, Probe>;

/// A state that records each hook in the payload and hands out a scripted
/// command on its first update.
struct Probe {
    name: &'static str,
    pending: Option<Box<Command>>,
}

fn probe(name: &'static str) -> Probe {
    Probe { name, pending: None }
}

fn probe_then(name: &'static str, command: Command) -> Probe {
    Probe { name, pending: Some(Box::new(command)) }
}

impl State<Kind, Vec<String>> for Probe {
    fn on_enter(&mut self, payload: &mut Vec<String>) {
        payload.push(format!("{}:enter", self.name));
    }

    fn on_exit(&mut self, payload: &mut Vec<String>) {
        payload.push(format!("{}:exit", self.name));
    }

    fn on_update(&mut self, _delta_time: u64, payload: &mut Vec<String>) -> Option<Command> {
        payload.push(format!("{}:update", self.name));
        self.pending.take().map(|c| *c)
    }

    fn on_draw(&mut self, surface: Surface, payload: &mut Vec<String>) {
        let target = match surface {
            Surface::Current => "current",
            Surface::Staging => "staging",
        };
        payload.push(format!("{}:draw:{}", self.name, target));
    }
}

type Manager = StateManager<Kind, Vec<String>, Probe, u32>;

const SIZE: RenderTargetSize = RenderTargetSize { width: 1024, height: 604 };

fn manager(initial: Probe, masks: Vec<(Kind, u32)>) -> Manager {
    match StateManager::new(initial, SIZE, Vec::new(), masks) {
        Ok(m) => m,
        Err(e) => panic!("construction failed: {:?}", e),
    }
}

fn time_left(m: &Manager) -> Option<u64> {
    match m.transition_state() {
        TransitionState::Idle => None,
        TransitionState::Active(d) => Some(d.time_left()),
    }
}

fn hooks(m: &Manager) -> Vec<&str> {
    m.shared_data.iter().map(|s| s.as_str()).collect()
}

#[test]
fn new_enters_the_initial_state() {
    let m = manager(probe("A"), vec![(Kind::Fade, 7)]);
    assert_eq!(hooks(&m), vec!["A:enter"]);
    assert!(!m.is_transitioning());
    assert_eq!(m.rendertarget_size(), SIZE);
}

#[test]
fn new_refuses_an_empty_mask_table() {
    let r: Result<Manager, _> = StateManager::new(probe("A"), SIZE, Vec::new(), Vec::new());
    assert!(matches!(r, Err(ConfigError::EmptyTextureMap)));
}

#[test]
fn animated_change_enters_incoming_at_once() {
    // one second, in microseconds
    let a = probe_then("A", Command::ChangeStateEx(probe("B"), TransitionTime(1_000_000), Kind::Fade));
    let mut m = manager(a, vec![(Kind::Fade, 7)]);
    let step = m.update(100_000);
    // the kind bound at the start is the first entry's: no rebinding
    assert_eq!(step, Ok(UpdateStep::TransitionStarted(None)));
    assert_eq!(hooks(&m), vec!["A:enter", "A:update", "B:enter"]);
    assert!(m.is_transitioning());
    assert_eq!(time_left(&m), Some(1_000_000));
}

#[test]
fn transition_hands_off_once_time_runs_out() {
    let a = probe_then("A", Command::ChangeStateEx(probe("B"), TransitionTime(1_000_000), Kind::Fade));
    let mut m = manager(a, vec![(Kind::Fade, 7)]);
    assert_eq!(m.update(100_000), Ok(UpdateStep::TransitionStarted(None)));
    assert_eq!(m.update(1_200_000), Ok(UpdateStep::HandedOff));
    assert!(!m.is_transitioning());
    assert_eq!(hooks(&m), vec!["A:enter", "A:update", "B:enter", "A:exit"]);
    // the new current state updates on the following call, not before
    assert_eq!(m.update(16_000), Ok(UpdateStep::Unchanged));
    assert_eq!(hooks(&m), vec!["A:enter", "A:update", "B:enter", "A:exit", "B:update"]);
    m.draw(1024, 604);
    assert_eq!(hooks(&m).last(), Some(&"B:draw:current"));
}

#[test]
fn time_left_falls_with_each_tick() {
    let a = probe_then("A", Command::ChangeStateEx(probe("B"), TransitionTime(50_000), Kind::Fade));
    let mut m = manager(a, vec![(Kind::Fade, 7)]);
    m.update(1);
    let mut previous = time_left(&m).unwrap();
    let mut handoffs = 0;
    for _ in 0..10 {
        match m.update(16_000).unwrap() {
            UpdateStep::Transitioning => {
                let now = time_left(&m).unwrap();
                assert!(now < previous);
                previous = now;
            }
            UpdateStep::HandedOff => handoffs += 1,
            UpdateStep::Unchanged => assert_eq!(handoffs, 1),
            other => panic!("unexpected step {:?}", other),
        }
    }
    assert_eq!(handoffs, 1);
    assert_eq!(previous, 2_000);
}

#[test]
fn zero_length_transition_ends_on_first_update() {
    let a = probe_then("A", Command::ChangeStateEx(probe("B"), TransitionTime(0), Kind::Fade));
    let mut m = manager(a, vec![(Kind::Fade, 7)]);
    m.update(16_000);
    assert!(m.is_transitioning());
    assert_eq!(m.update(16_000), Ok(UpdateStep::HandedOff));
    assert!(!m.is_transitioning());
}

#[test]
fn zero_length_transition_ends_even_on_a_zero_delta() {
    let a = probe_then("A", Command::ChangeStateEx(probe("B"), TransitionTime(0), Kind::Fade));
    let mut m = manager(a, vec![(Kind::Fade, 7)]);
    m.update(0);
    assert_eq!(m.update(0), Ok(UpdateStep::HandedOff));
}

#[test]
fn tick_equal_to_time_left_does_not_end_transition() {
    let a = probe_then("A", Command::ChangeStateEx(probe("B"), TransitionTime(1_000), Kind::Fade));
    let mut m = manager(a, vec![(Kind::Fade, 7)]);
    m.update(1);
    assert_eq!(m.update(1_000), Ok(UpdateStep::Transitioning));
    assert_eq!(time_left(&m), Some(0));
    assert_eq!(m.update(1), Ok(UpdateStep::HandedOff));
}

#[test]
fn immediate_change_swaps_states() {
    let a = probe_then("A", Command::ChangeState(probe("B")));
    let mut m = manager(a, vec![(Kind::Fade, 7)]);
    assert_eq!(m.update(16_000), Ok(UpdateStep::Changed));
    assert!(!m.is_transitioning());
    assert_eq!(hooks(&m), vec!["A:enter", "A:update", "A:exit", "B:enter"]);
}

#[test]
fn unknown_transition_kind_is_reported() {
    let a = probe_then("A", Command::ChangeStateEx(probe("B"), TransitionTime(5), Kind::Spiral));
    let mut m = manager(a, vec![(Kind::Fade, 7), (Kind::Slide, 8)]);
    assert_eq!(m.update(16_000), Err(ConfigError::UnknownTransition(Kind::Spiral)));
    assert!(!m.is_transitioning());
    assert_eq!(hooks(&m), vec!["A:enter", "A:update"]);
    assert!(!m.is_registered(Kind::Spiral));
    assert!(m.is_registered(Kind::Slide));
}

#[test]
fn another_kind_hands_back_its_mask() {
    let a = probe_then("A", Command::ChangeStateEx(probe("B"), TransitionTime(5), Kind::Slide));
    let mut m = manager(a, vec![(Kind::Fade, 7), (Kind::Slide, 8)]);
    assert_eq!(m.update(16_000), Ok(UpdateStep::TransitionStarted(Some(8))));
    // the same kind again needs no rebinding
    assert_eq!(m.change_state_ex(probe("C"), TransitionTime(5), Kind::Slide), None);
    assert_eq!(m.change_state_ex(probe("D"), TransitionTime(5), Kind::Fade), Some(7));
}

#[test]
fn first_entry_of_a_kind_wins() {
    let mut m = manager(probe("A"), vec![(Kind::Fade, 7), (Kind::Slide, 8), (Kind::Slide, 9)]);
    assert_eq!(m.change_state_ex(probe("B"), TransitionTime(5), Kind::Slide), Some(8));
}

#[test]
fn replaced_incoming_state_exits() {
    let mut m = manager(probe("A"), vec![(Kind::Fade, 7)]);
    m.change_state_ex(probe("B"), TransitionTime(1_000), Kind::Fade);
    m.change_state_ex(probe("C"), TransitionTime(2_000), Kind::Fade);
    assert_eq!(hooks(&m), vec!["A:enter", "B:enter", "B:exit", "C:enter"]);
    assert_eq!(time_left(&m), Some(2_000));
}

#[test]
fn immediate_change_keeps_a_running_transition() {
    let mut m = manager(probe("A"), vec![(Kind::Fade, 7)]);
    m.change_state_ex(probe("B"), TransitionTime(1_000), Kind::Fade);
    m.change_state(probe("C"));
    assert_eq!(hooks(&m), vec!["A:enter", "B:enter", "A:exit", "C:enter"]);
    assert!(m.is_transitioning());
    assert_eq!(m.update(2_000), Ok(UpdateStep::HandedOff));
    assert_eq!(hooks(&m).last(), Some(&"C:exit"));
}

#[test]
fn draw_idle_letterboxes_current_surface() {
    let mut m = manager(probe("A"), vec![(Kind::Fade, 7)]);
    let frame = m.draw(1024, 1000);
    assert_eq!(frame.blend, None);
    // width is the constrained axis: padding goes above and below
    assert_eq!(frame.viewport, Viewport { x: 0, y: 198, width: 1024, height: 604 });
    assert_eq!(hooks(&m), vec!["A:enter", "A:draw:current"]);
}

#[test]
fn draw_during_transition_renders_both_states() {
    let mut m = manager(probe("A"), vec![(Kind::Fade, 7)]);
    m.change_state_ex(probe("B"), TransitionTime(1_000_000), Kind::Fade);
    m.update(250_000);
    let frame = m.draw(2048, 604);
    assert_eq!(frame.blend, Some(250_000));
    assert_eq!(frame.viewport, Viewport { x: 512, y: 0, width: 1024, height: 604 });
    assert_eq!(
        hooks(&m),
        vec!["A:enter", "B:enter", "A:draw:current", "B:draw:staging"]
    );
}

#[test]
fn blend_starts_at_zero() {
    let mut m = manager(probe("A"), vec![(Kind::Fade, 7)]);
    m.change_state_ex(probe("B"), TransitionTime(3), Kind::Fade);
    assert_eq!(m.draw(1024, 604).blend, Some(0));
    m.update(1);
    // two thirds remain, rounded down, so the blend rounds up
    assert_eq!(m.draw(1024, 604).blend, Some(PROGRESS_ONE - 666_666));
}

#[test]
fn drawing_twice_gives_the_same_frame() {
    let mut m = manager(probe("A"), vec![(Kind::Fade, 7)]);
    m.change_state_ex(probe("B"), TransitionTime(800_000), Kind::Fade);
    m.update(300_000);
    let first = m.draw(1280, 720);
    let second = m.draw(1280, 720);
    assert_eq!(first, second);
    assert_eq!(time_left(&m), Some(500_000));
}

#[test]
fn progress_reports_remaining_fraction() {
    let mut m = manager(probe("A"), vec![(Kind::Fade, 7)]);
    m.change_state_ex(probe("B"), TransitionTime(1_000_000), Kind::Fade);
    m.update(250_000);
    match m.transition_state() {
        TransitionState::Active(d) => {
            assert_eq!(d.progress(), 750_000);
            assert_eq!(d.start_time(), 1_000_000);
            assert_eq!(d.time_left(), 750_000);
        }
        TransitionState::Idle => panic!("expected a running transition"),
    }
}

#[test]
fn take_leaves_idle() {
    let mut t: TransitionState<Probe> = TransitionState::default();
    assert!(matches!(t.take(), TransitionState::Idle));
    assert!(matches!(t, TransitionState::Idle));
}

#[test]
fn apply_command_none_changes_nothing() {
    let mut m = manager(probe("A"), vec![(Kind::Fade, 7)]);
    assert_eq!(m.apply_command(None), Ok(UpdateStep::Unchanged));
    assert_eq!(hooks(&m), vec!["A:enter"]);
    assert!(!m.is_transitioning());
}

#[test]
fn apply_command_unknown_kind_enters_nothing() {
    let mut m = manager(probe("A"), vec![(Kind::Fade, 7)]);
    let r = m.apply_command(Some(Command::ChangeStateEx(probe("B"), TransitionTime(9), Kind::Slide)));
    assert_eq!(r, Err(ConfigError::UnknownTransition(Kind::Slide)));
    assert_eq!(hooks(&m), vec!["A:enter"]);
    assert!(!m.is_transitioning());
}

#[test]
fn apply_command_starts_a_transition() {
    let mut m = manager(probe("A"), vec![(Kind::Fade, 7), (Kind::Slide, 8)]);
    let r = m.apply_command(Some(Command::ChangeStateEx(probe("B"), TransitionTime(9), Kind::Slide)));
    assert_eq!(r, Ok(UpdateStep::TransitionStarted(Some(8))));
    assert_eq!(hooks(&m), vec!["A:enter", "B:enter"]);
    assert_eq!(time_left(&m), Some(9));
}

#[test]
fn apply_command_changes_at_once() {
    let mut m = manager(probe("A"), vec![(Kind::Fade, 7)]);
    assert_eq!(m.apply_command(Some(Command::ChangeState(probe("B")))), Ok(UpdateStep::Changed));
    assert_eq!(hooks(&m), vec!["A:enter", "A:exit", "B:enter"]);
}

struct Clock;

impl State<Kind, Vec<u64>> for Clock {
    fn on_update(&mut self, delta_time: u64, payload: &mut Vec<u64>) -> Option<StateManagerCommand<Kind, Clock>> {
        payload.push(delta_time);
        None
    }
}

#[test]
fn update_hands_the_delta_to_the_state() {
    let mut m: StateManager<Kind, Vec<u64>, Clock, u32> =
        StateManager::new(Clock, SIZE, Vec::new(), vec![(Kind::Fade, 7)]).unwrap();
    m.update(16_667);
    m.update(0);
    assert_eq!(m.shared_data, vec![16_667, 0]);
}

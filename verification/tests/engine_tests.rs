//! Tests for the dispatch engine: event walks, transitions, the delegate
//! mailbox and the follow-up event queue.
use std::cell::RefCell;
use std::rc::Rc;

use rust_hsm::errors::HSMError;
use rust_hsm::events::StateEventTrait;
use rust_hsm::examples::{A1Impl, A2Impl, B1Impl, ExampleEvents, ExampleStates, Top};
use rust_hsm::state::{StateIF, StateId};
use rust_hsm::state_data_delegate::{PendingCommand, StateDataDelegate};
use rust_hsm::state_engine::{HSMEngine, TraceStep};

/// A programmable test state: logs what it handles, optionally queues
/// follow-up events on `A`, optionally requests transitions on `A` or `C`,
/// and answers `handle_all` for anything it has no program for.
struct FlexState {
    tag: &'static str,
    log: Rc<RefCell<Vec<String>>>,
    handle_all: bool,
    queue_on_a: Vec<ExampleEvents>,
    requeue_a: bool,
    request_on_a: Option<u16>,
    request_on_c: Option<u16>,
}

impl FlexState {
    fn new(tag: &'static str, log: Rc<RefCell<Vec<String>>>) -> Box<Self> {
        Box::new(FlexState {
            tag,
            log,
            handle_all: true,
            queue_on_a: vec![],
            requeue_a: false,
            request_on_a: None,
            request_on_c: None,
        })
    }
}

impl StateIF<ExampleStates, ExampleEvents> for FlexState {
    fn handle_event(
        &mut self,
        event: &ExampleEvents,
        delegate: &mut StateDataDelegate<ExampleEvents>,
    ) -> bool {
        self.log
            .borrow_mut()
            .push(format!("{}:{}", self.tag, event.get_event_name()));
        match event {
            ExampleEvents::A => {
                for e in self.queue_on_a.drain(..) {
                    let _ = delegate.dispatch_event_internally(e);
                }
                if self.requeue_a {
                    let _ = delegate.dispatch_event_internally(ExampleEvents::A);
                }
                if let Some(t) = self.request_on_a {
                    let _ = delegate.submit_state_change_request(t);
                }
                self.handle_all
            }
            ExampleEvents::C => {
                if let Some(t) = self.request_on_c {
                    let _ = delegate.submit_state_change_request(t);
                }
                self.handle_all
            }
            _ => self.handle_all,
        }
    }
}

/// The example hierarchy: Top(1) over LevelA1(2) and LevelB1(3), with
/// LevelA2(4) below LevelA1.
fn create_test_hsm() -> HSMEngine<ExampleStates, ExampleEvents> {
    let mut engine = HSMEngine::new("TestHsm".to_string(), 1);
    engine.add_state(Top::new(), 1, None).unwrap();
    engine.add_state(A1Impl::new(), 2, Some(1)).unwrap();
    engine.add_state(B1Impl::new(), 3, Some(1)).unwrap();
    engine.add_state(A2Impl::new(), 4, Some(2)).unwrap();
    engine
}

fn create_flex_hsm(
    log: &Rc<RefCell<Vec<String>>>,
    leaf: Box<FlexState>,
) -> HSMEngine<ExampleStates, ExampleEvents> {
    let mut engine = HSMEngine::new("FlexHsm".to_string(), 1);
    engine.add_state(FlexState::new("top", log.clone()), 1, None).unwrap();
    let mut a1 = FlexState::new("a1", log.clone());
    a1.handle_all = false;
    engine.add_state(a1, 2, Some(1)).unwrap();
    engine.add_state(FlexState::new("b1", log.clone()), 3, Some(1)).unwrap();
    engine.add_state(leaf, 4, Some(2)).unwrap();
    engine
}

#[test]
fn handle_state_change() {
    // A transition request from the settled leaf exits up to the least
    // common ancestor, enters down to the target, then starts the target.
    let log = Rc::new(RefCell::new(vec![]));
    let mut leaf = FlexState::new("a2", log.clone());
    leaf.request_on_a = Some(3);
    let mut engine = create_flex_hsm(&log, leaf);
    engine.init(4).unwrap();

    engine.dispatch_event(ExampleEvents::A).unwrap();

    assert_eq!(engine.get_current_state().unwrap(), ExampleStates::LevelB1);
    assert_eq!(
        *engine.get_trace(),
        vec![
            TraceStep::Exit(4),
            TraceStep::Exit(2),
            TraceStep::Enter(3),
            TraceStep::Start(3),
        ]
    );
}

#[test]
fn handle_event_internally() {
    // An event queued through the delegate is handled once the current
    // event completes, and can itself request a transition.
    let log = Rc::new(RefCell::new(vec![]));
    let mut leaf = FlexState::new("a2", log.clone());
    leaf.queue_on_a = vec![ExampleEvents::C];
    leaf.request_on_c = Some(3);
    let mut engine = create_flex_hsm(&log, leaf);
    engine.init(4).unwrap();

    engine.dispatch_event(ExampleEvents::A).unwrap();

    assert_eq!(engine.get_current_state().unwrap(), ExampleStates::LevelB1);
    assert_eq!(*log.borrow(), vec!["a2:A".to_string(), "a2:C".to_string()]);
    assert_eq!(
        *engine.get_trace(),
        vec![
            TraceStep::Exit(4),
            TraceStep::Exit(2),
            TraceStep::Enter(3),
            TraceStep::Start(3),
        ]
    );
}

#[test]
fn dispatch_event() {
    // An event the leaf does not handle falls through to the first
    // ancestor that does; nothing moves, and the dispatch succeeds.
    let mut engine = create_test_hsm();
    engine.init(4).unwrap();
    assert!(engine.dispatch_event(ExampleEvents::A).is_ok());
    assert_eq!(engine.get_current_state().unwrap(), ExampleStates::LevelA2);
    assert_eq!(*engine.get_trace(), Vec::<TraceStep>::new());
}

#[test]
fn dispatch_event_before_init_is_refused() {
    let mut engine = create_test_hsm();
    let r = engine.dispatch_event(ExampleEvents::A);
    assert!(matches!(r, Err(HSMError::EngineNotInitialized())));
}

#[test]
fn dispatch_event_unhandled_to_the_top_is_dropped() {
    // Nobody below the top handles the event and the top refuses it too:
    // the event is simply dropped, which is a valid outcome, not a fault.
    let log = Rc::new(RefCell::new(vec![]));
    let mut engine = HSMEngine::<ExampleStates, ExampleEvents>::new("FlexHsm".to_string(), 1);
    let mut top = FlexState::new("top", log.clone());
    top.handle_all = false;
    let mut a1 = FlexState::new("a1", log.clone());
    a1.handle_all = false;
    engine.add_state(top, 1, None).unwrap();
    engine.add_state(a1, 2, Some(1)).unwrap();
    engine.init(2).unwrap();

    assert!(engine.dispatch_event(ExampleEvents::D).is_ok());
    assert_eq!(engine.get_current_state().unwrap(), ExampleStates::LevelA1);
    assert_eq!(*log.borrow(), vec!["a1:D".to_string(), "top:D".to_string()]);
}

#[test]
fn find_lca() {
    // The engine transitions between sibling subtrees through their
    // lowest shared ancestor: from LevelA2 to LevelB1 the LCA is Top, so
    // both LevelA2 and LevelA1 are exited.
    let log = Rc::new(RefCell::new(vec![]));
    let mut leaf = FlexState::new("a2", log.clone());
    leaf.request_on_a = Some(3);
    let mut engine = create_flex_hsm(&log, leaf);
    engine.init(4).unwrap();
    engine.dispatch_event(ExampleEvents::A).unwrap();
    let trace = engine.get_trace();
    assert_eq!(trace[0], TraceStep::Exit(4));
    assert_eq!(trace[1], TraceStep::Exit(2));
    // Top itself is above the LCA's children here and receives neither an
    // exit nor an enter.
    assert!(!trace.contains(&TraceStep::Exit(1)));
    assert!(!trace.contains(&TraceStep::Enter(1)));
}

#[test]
fn enter_states_lca_to_target() {
    // At init the whole ancestor chain of the starting state is entered
    // top-down, the starting leaf included, then the leaf is started.
    let mut engine = create_test_hsm();
    engine.init(4).unwrap();
    assert_eq!(
        *engine.get_trace(),
        vec![
            TraceStep::Enter(1),
            TraceStep::Enter(2),
            TraceStep::Enter(4),
            TraceStep::Start(4),
        ]
    );
    assert_eq!(engine.get_current_state().unwrap(), ExampleStates::LevelA2);
}

#[test]
fn exit_states_until_target() {
    // Transitioning from a nested state to its own ancestor's sibling
    // exits every state strictly below the least common ancestor, deepest
    // first, and never exits the ancestor itself.
    let log = Rc::new(RefCell::new(vec![]));
    let mut leaf = FlexState::new("a2", log.clone());
    leaf.request_on_a = Some(2);
    let mut engine = create_flex_hsm(&log, leaf);
    engine.init(4).unwrap();
    engine.dispatch_event(ExampleEvents::A).unwrap();
    // Target LevelA1 is the parent of LevelA2: the LCA is LevelA1, so
    // only LevelA2 is exited, and the target receives only a start.
    assert_eq!(
        *engine.get_trace(),
        vec![TraceStep::Exit(4), TraceStep::Start(2)]
    );
    assert_eq!(engine.get_current_state().unwrap(), ExampleStates::LevelA1);
}

#[test]
fn test_many_queued_events() {
    // Events queued by states while other events are being handled are
    // all served, first-in first-out.
    let log = Rc::new(RefCell::new(vec![]));
    let mut leaf = FlexState::new("a2", log.clone());
    leaf.queue_on_a = vec![ExampleEvents::C, ExampleEvents::D, ExampleEvents::B(1)];
    let mut engine = create_flex_hsm(&log, leaf);
    engine.init(4).unwrap();

    engine.dispatch_event(ExampleEvents::A).unwrap();

    assert_eq!(
        *log.borrow(),
        vec![
            "a2:A".to_string(),
            "a2:C".to_string(),
            "a2:D".to_string(),
            "a2:B".to_string(),
        ]
    );
}

#[test]
fn transition_to_the_current_state_is_a_no_op() {
    // Dispatching a transition request to the current state fires no
    // callback and leaves the current state untouched.
    let log = Rc::new(RefCell::new(vec![]));
    let mut leaf = FlexState::new("a2", log.clone());
    leaf.request_on_a = Some(4);
    let mut engine = create_flex_hsm(&log, leaf);
    engine.init(4).unwrap();

    engine.dispatch_event(ExampleEvents::A).unwrap();

    assert_eq!(engine.get_current_state().unwrap(), ExampleStates::LevelA2);
    assert_eq!(*engine.get_trace(), Vec::<TraceStep>::new());
}

#[test]
fn second_transition_request_in_one_dispatch_is_rejected() {
    // Two states both request a transition while handling the same
    // external event: the first is honored, the second is reported as
    // MultipleConcurrentChangeState, never silently ignored.
    let log = Rc::new(RefCell::new(vec![]));
    let mut leaf = FlexState::new("a2", log.clone());
    leaf.request_on_a = Some(3);
    leaf.handle_all = false;  // fall through so the top also sees the event
    let mut engine = HSMEngine::<ExampleStates, ExampleEvents>::new("FlexHsm".to_string(), 1);
    let mut top = FlexState::new("top", log.clone());
    top.request_on_a = Some(3);
    engine.add_state(top, 1, None).unwrap();
    let mut a1 = FlexState::new("a1", log.clone());
    a1.handle_all = false;
    engine.add_state(a1, 2, Some(1)).unwrap();
    engine.add_state(FlexState::new("b1", log.clone()), 3, Some(1)).unwrap();
    engine.add_state(leaf, 4, Some(2)).unwrap();
    engine.init(4).unwrap();

    let r = engine.dispatch_event(ExampleEvents::A);
    assert!(matches!(r, Err(HSMError::MultipleConcurrentChangeState(_, _, _))));
    // The first request was honored before the second was observed.
    assert_eq!(engine.get_current_state().unwrap(), ExampleStates::LevelB1);
}

#[test]
fn transition_to_an_unknown_state_is_refused() {
    let log = Rc::new(RefCell::new(vec![]));
    let mut leaf = FlexState::new("a2", log.clone());
    leaf.request_on_a = Some(9);
    let mut engine = create_flex_hsm(&log, leaf);
    engine.init(4).unwrap();
    let r = engine.dispatch_event(ExampleEvents::A);
    assert!(matches!(r, Err(HSMError::InvalidStateId(_, _))));
    assert_eq!(engine.get_current_state().unwrap(), ExampleStates::LevelA2);
}

#[test]
fn transition_to_the_top_state_is_refused() {
    let log = Rc::new(RefCell::new(vec![]));
    let mut leaf = FlexState::new("a2", log.clone());
    leaf.request_on_a = Some(1);
    let mut engine = create_flex_hsm(&log, leaf);
    engine.init(4).unwrap();
    let r = engine.dispatch_event(ExampleEvents::A);
    assert!(matches!(r, Err(HSMError::GenericError(_))));
    assert_eq!(engine.get_current_state().unwrap(), ExampleStates::LevelA2);
}

#[test]
fn runaway_follow_up_cascade_is_reported() {
    // A state that queues a follow-up for every event it sees would spin
    // forever; the engine reports the runaway instead.
    let log = Rc::new(RefCell::new(vec![]));
    let mut leaf = FlexState::new("a2", log.clone());
    leaf.requeue_a = true;
    let mut engine = create_flex_hsm(&log, leaf);
    engine.init(4).unwrap();
    let r = engine.dispatch_event(ExampleEvents::A);
    assert!(matches!(r, Err(HSMError::GenericError(_))));
}

#[test]
fn add_state_rejects_duplicates_and_extra_roots() {
    let mut engine = HSMEngine::<ExampleStates, ExampleEvents>::new("BadHsm".to_string(), 1);
    engine.add_state(Top::new(), 1, None).unwrap();
    engine.add_state(A1Impl::new(), 2, Some(1)).unwrap();
    let dup = engine.add_state(A1Impl::new(), 2, Some(1));
    assert!(matches!(dup, Err(HSMError::AddDuplicateStateId(_, _))));
    let second_root = engine.add_state(B1Impl::new(), 3, None);
    assert!(matches!(second_root, Err(HSMError::MultipleTopState(_, _, _, _))));
    let top_with_parent = engine.add_state(B1Impl::new(), 1, Some(3));
    assert!(matches!(top_with_parent, Err(HSMError::GenericError(_))));
}

#[test]
fn init_rejects_unknown_starting_state() {
    let mut engine = create_test_hsm();
    let r = engine.init(9);
    assert!(matches!(r, Err(HSMError::InvalidStateId(_, _))));
    // The engine stays uninitialized and still refuses dispatches.
    assert!(matches!(
        engine.dispatch_event(ExampleEvents::A),
        Err(HSMError::EngineNotInitialized())
    ));
}

#[test]
fn init_rejects_dangling_parents() {
    let mut engine = HSMEngine::<ExampleStates, ExampleEvents>::new("BadHsm".to_string(), 1);
    engine.add_state(Top::new(), 1, None).unwrap();
    engine.add_state(A1Impl::new(), 2, Some(9)).unwrap();
    let r = engine.init(2);
    assert!(matches!(r, Err(HSMError::MapValidationError(_))));
}

#[test]
fn states_cannot_be_added_after_init() {
    let mut engine = create_test_hsm();
    engine.init(4).unwrap();
    let r = engine.add_state(B1Impl::new(), 5, Some(1));
    assert!(matches!(r, Err(HSMError::GenericError(_))));
}

#[test]
fn engine_exposes_its_name_and_state_names() {
    let engine = create_test_hsm();
    assert_eq!(engine.get_hsm_name(), "TestHsm".to_string());
    assert_eq!(engine.get_state_name(&1).unwrap(), "Top".to_string());
    assert_eq!(engine.get_state_name(&4).unwrap(), "LevelA2".to_string());
    assert_eq!(engine.get_state_name(&9).unwrap(), "INVALID".to_string());
}

#[test]
fn direct_transition_request_to_current_state_fires_nothing() {
    // Handing the transition sequence the state the machine is already
    // in is idempotent: no exit, enter or start fires, and the current
    // state is untouched.
    let mut engine = create_test_hsm();
    engine.init(4).unwrap();
    let trace_before = engine.get_trace().clone();
    assert!(engine.handle_state_change(StateId::new(4)).is_ok());
    assert_eq!(engine.get_current_state().unwrap(), ExampleStates::LevelA2);
    assert_eq!(*engine.get_trace(), trace_before);
}

#[test]
fn direct_transition_walks_exit_enter_start() {
    let mut engine = create_test_hsm();
    engine.init(4).unwrap();
    assert!(engine.handle_state_change(StateId::new(3)).is_ok());
    assert_eq!(engine.get_current_state().unwrap(), ExampleStates::LevelB1);
    assert_eq!(
        *engine.get_trace(),
        vec![
            TraceStep::Enter(1),
            TraceStep::Enter(2),
            TraceStep::Enter(4),
            TraceStep::Start(4),
            TraceStep::Exit(4),
            TraceStep::Exit(2),
            TraceStep::Enter(3),
            TraceStep::Start(3),
        ]
    );
}

#[test]
fn processing_two_transition_commands_rejects_the_second() {
    // The raw command-processing step honors the first transition request
    // and reports the second, however the commands arrived.
    let mut engine = create_test_hsm();
    engine.init(4).unwrap();
    let commands = vec![
        PendingCommand::RequestTransition(StateId::new(4), StateId::new(3)),
        PendingCommand::RequestTransition(StateId::new(4), StateId::new(2)),
    ];
    let r = engine.process_commands(commands, "two requests".to_string());
    assert!(matches!(r, Err(HSMError::MultipleConcurrentChangeState(_, _, _))));
    assert_eq!(engine.get_current_state().unwrap(), ExampleStates::LevelB1);
}

#[test]
fn processing_event_commands_queues_them_in_order() {
    let mut engine = create_test_hsm();
    engine.init(4).unwrap();
    let commands = vec![
        PendingCommand::RequestEvent(StateId::new(4), ExampleEvents::C),
        PendingCommand::RequestEvent(StateId::new(4), ExampleEvents::D),
    ];
    assert!(engine.process_commands(commands, "two events".to_string()).is_ok());
    // The queued events are drained by the next dispatch; nothing has
    // moved yet.
    assert_eq!(engine.get_current_state().unwrap(), ExampleStates::LevelA2);
}

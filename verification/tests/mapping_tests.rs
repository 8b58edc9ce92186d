//! Tests for the state hierarchy map: parent links, path resolution,
//! validation and least-common-ancestor computation.
use std::cell::RefCell;

use rust_hsm::errors::HSMError;
use rust_hsm::examples::{ExampleEvents, ExampleStates};
use rust_hsm::state::{StateConstraint, StateContainer, StateIF, StateId};
use rust_hsm::state_data_delegate::StateDataDelegate;
use rust_hsm::state_mapping::StateMapping;

struct DummyStateStruct {
    state_started: RefCell<bool>,
    _num_created: u16,
}

impl StateIF<ExampleStates, ExampleEvents> for DummyStateStruct {
    fn handle_event(
        &mut self,
        event: &ExampleEvents,
        _delegate: &mut StateDataDelegate<ExampleEvents>,
    ) -> bool {
        match event {
            ExampleEvents::A => true,
            ExampleEvents::B(_) => true,
            ExampleEvents::C => true,
            ExampleEvents::D => true,
            ExampleEvents::E(_) => true,
            ExampleEvents::F(_) => true,
            ExampleEvents::InvalidNumArgs(_) => true,
            ExampleEvents::InvalidDeserialize => true,
            ExampleEvents::Invalid => true,
        }
    }

    fn handle_state_start(&mut self) {
        *self.state_started.borrow_mut() = true;
    }

    fn handle_state_exit(&mut self) {
        *self.state_started.borrow_mut() = false;
    }
}

impl DummyStateStruct {
    fn new(num_states_created_counter: &mut u16) -> Box<Self> {
        *num_states_created_counter += 1;
        Box::new(DummyStateStruct {
            state_started: RefCell::new(false),
            _num_created: *num_states_created_counter,
        })
    }
}

fn do_paths_match(a: &Vec<StateId>, b: &Vec<StateId>) -> bool {
    let matching = a.iter().zip(b.iter()).filter(|&(x, y)| x == y).count();
    matching == a.len() && matching == b.len()
}

fn resolve_path_to_id(path: &Vec<StateId>) -> Vec<StateId> {
    path.iter().map(|state_id| state_id.clone()).collect()
}

fn cast_id_vector(state_list: &Vec<StateId>) -> Vec<ExampleStates> {
    state_list
        .iter()
        .map(|state_id| ExampleStates::from_id(*state_id.get_id()))
        .collect()
}

fn build_example_mapping() -> StateMapping<ExampleStates, ExampleEvents> {
    let mut num_states_created: u16 = 0;

    let top_state = DummyStateStruct::new(&mut num_states_created);
    assert!(num_states_created == 1);
    let a1_state = DummyStateStruct::new(&mut num_states_created);
    assert!(num_states_created == 2);
    let b1_state = DummyStateStruct::new(&mut num_states_created);
    assert!(num_states_created == 3);
    let a2_state = DummyStateStruct::new(&mut num_states_created);
    assert!(num_states_created == 4);

    let top_id = StateId::new(ExampleStates::Top.to_id());
    let a1_id = StateId::new(ExampleStates::LevelA1.to_id());
    let b1_id = StateId::new(ExampleStates::LevelB1.to_id());
    let a2_id = StateId::new(ExampleStates::LevelA2.to_id());

    let containers = vec![
        StateContainer::new(top_id, None, top_state),
        StateContainer::new(a1_id, Some(top_id), a1_state),
        StateContainer::new(b1_id, Some(top_id), b1_state),
        StateContainer::new(a2_id, Some(a1_id), a2_state),
    ];
    StateMapping::new(top_id, containers)
}

#[test]
fn parent_link() {
    let mapping = build_example_mapping();

    let top_id = StateId::new(ExampleStates::Top.to_id());
    let a1_id = StateId::new(ExampleStates::LevelA1.to_id());
    let b1_id = StateId::new(ExampleStates::LevelB1.to_id());
    let a2_id = StateId::new(ExampleStates::LevelA2.to_id());

    assert!(mapping.get_parent_state_id(&top_id).is_none());
    assert_eq!(mapping.get_parent_state_id(&a1_id).unwrap(), top_id);
    assert_eq!(mapping.get_parent_state_id(&b1_id).unwrap(), top_id);
    assert_eq!(mapping.get_parent_state_id(&a2_id).unwrap(), a1_id);

    assert!(!mapping.is_state_id_valid(&StateId::new(7)));
    assert!(mapping.is_state_id_valid(&top_id));
    assert!(mapping.is_state_id_valid(&a1_id));
    assert!(mapping.is_state_id_valid(&b1_id));
    assert!(mapping.is_state_id_valid(&a2_id));
    assert!(!mapping.is_state_id_valid(&StateId::new(ExampleStates::INVALID.to_id())));

    assert!(mapping.validate_cross_states().is_ok());

    {
        let path = mapping.resolve_path_to_root(&top_id);
        assert!(path.is_ok());
        let id_paths = resolve_path_to_id(&path.unwrap());
        let expected_id_path: Vec<StateId> = vec![top_id];
        assert!(
            do_paths_match(&id_paths, &expected_id_path),
            "expected {:?}. Received {:?} ",
            expected_id_path,
            id_paths
        );
    }
    {
        let path = mapping.resolve_path_to_root(&a1_id);
        assert!(path.is_ok());
        let id_paths = resolve_path_to_id(&path.unwrap());
        let expected_id_path: Vec<StateId> = vec![a1_id, top_id];
        assert!(
            do_paths_match(&id_paths, &expected_id_path),
            "expected {:?}. Received {:?} ",
            cast_id_vector(&expected_id_path),
            cast_id_vector(&id_paths)
        );
    }
    {
        let path = mapping.resolve_path_to_root(&b1_id);
        assert!(path.is_ok());
        let id_paths = resolve_path_to_id(&path.unwrap());
        let expected_id_path: Vec<StateId> = vec![b1_id, top_id];
        assert!(
            do_paths_match(&id_paths, &expected_id_path),
            "expected {:?}. Received {:?} ",
            cast_id_vector(&expected_id_path),
            cast_id_vector(&id_paths)
        );
    }
    {
        let path = mapping.resolve_path_to_root(&a2_id);
        assert!(path.is_ok());
        let id_paths = resolve_path_to_id(&path.unwrap());
        let expected_id_path: Vec<StateId> = vec![a2_id, a1_id, top_id];
        assert!(
            do_paths_match(&id_paths, &expected_id_path),
            "expected {:?}. Received {:?} ",
            cast_id_vector(&expected_id_path),
            cast_id_vector(&id_paths)
        );
    }
    {
        let path = mapping.resolve_path_to_root(&StateId::new(ExampleStates::INVALID.to_id()));
        assert!(path.is_err());
    }
}

#[test]
fn lca_of_sibling_subtrees_is_top() {
    let mapping = build_example_mapping();
    let b1_id = StateId::new(3);
    let a2_id = StateId::new(4);
    let lca = mapping.find_lca(&a2_id, &b1_id).unwrap();
    assert_eq!(*lca.get_id(), 1);
}

#[test]
fn lca_of_nested_states_is_the_ancestor() {
    let mapping = build_example_mapping();
    let a1_id = StateId::new(2);
    let a2_id = StateId::new(4);
    let lca = mapping.find_lca(&a2_id, &a1_id).unwrap();
    assert_eq!(*lca.get_id(), 2);
}

#[test]
fn lca_is_symmetric() {
    // For all distinct non-root states a, b: find_lca(a, b) == find_lca(b, a).
    let mapping = build_example_mapping();
    let pairs = [(2u16, 3u16), (2, 4), (3, 4)];
    for (x, y) in pairs {
        let xy = mapping.find_lca(&StateId::new(x), &StateId::new(y)).unwrap();
        let yx = mapping.find_lca(&StateId::new(y), &StateId::new(x)).unwrap();
        assert_eq!(*xy.get_id(), *yx.get_id());
    }
}

#[test]
fn lca_of_a_state_with_itself_is_refused() {
    let mapping = build_example_mapping();
    let a2_id = StateId::new(4);
    let r = mapping.find_lca(&a2_id, &a2_id);
    assert!(matches!(r, Err(HSMError::LCAOfSameNode())));
}

#[test]
fn lca_with_top_as_target_is_refused() {
    let mapping = build_example_mapping();
    let r = mapping.find_lca(&StateId::new(4), &StateId::new(1));
    assert!(matches!(r, Err(HSMError::GenericError(_))));
}

#[test]
fn root_path_starts_at_state_ends_at_top_without_duplicates() {
    // Root paths are inclusive on both ends and never repeat a state.
    let mapping = build_example_mapping();
    for id in [1u16, 2, 3, 4] {
        let path = mapping.resolve_path_to_root(&StateId::new(id)).unwrap();
        assert_eq!(*path[0].get_id(), id);
        assert_eq!(*path[path.len() - 1].get_id(), 1);
        for i in 0..path.len() {
            for j in (i + 1)..path.len() {
                assert_ne!(path[i].get_id(), path[j].get_id());
            }
        }
    }
}

#[test]
fn validation_rejects_a_dangling_parent() {
    let mut count: u16 = 0;
    let top = DummyStateStruct::new(&mut count);
    let orphan = DummyStateStruct::new(&mut count);
    let containers = vec![
        StateContainer::new(StateId::new(1), None, top as Box<dyn StateIF<ExampleStates, ExampleEvents>>),
        StateContainer::new(StateId::new(2), Some(StateId::new(9)), orphan),
    ];
    let mapping: StateMapping<ExampleStates, ExampleEvents> =
        StateMapping::new(StateId::new(1), containers);
    assert!(matches!(
        mapping.validate_cross_states(),
        Err(HSMError::MapValidationError(_))
    ));
}

#[test]
fn validation_rejects_a_parent_cycle() {
    let mut count: u16 = 0;
    let top = DummyStateStruct::new(&mut count);
    let first = DummyStateStruct::new(&mut count);
    let second = DummyStateStruct::new(&mut count);
    let containers = vec![
        StateContainer::new(StateId::new(1), None, top as Box<dyn StateIF<ExampleStates, ExampleEvents>>),
        StateContainer::new(StateId::new(2), Some(StateId::new(3)), first),
        StateContainer::new(StateId::new(3), Some(StateId::new(2)), second),
    ];
    let mapping: StateMapping<ExampleStates, ExampleEvents> =
        StateMapping::new(StateId::new(1), containers);
    assert!(matches!(
        mapping.validate_cross_states(),
        Err(HSMError::MapValidationError(_))
    ));
    assert!(matches!(
        mapping.resolve_path_to_root(&StateId::new(2)),
        Err(HSMError::MapValidationError(_))
    ));
}

#[test]
fn validation_rejects_duplicate_state_ids() {
    let mut count: u16 = 0;
    let top = DummyStateStruct::new(&mut count);
    let dup = DummyStateStruct::new(&mut count);
    let containers = vec![
        StateContainer::new(StateId::new(1), None, top as Box<dyn StateIF<ExampleStates, ExampleEvents>>),
        StateContainer::new(StateId::new(1), None, dup),
    ];
    let mapping: StateMapping<ExampleStates, ExampleEvents> =
        StateMapping::new(StateId::new(1), containers);
    assert!(matches!(
        mapping.validate_cross_states(),
        Err(HSMError::MapValidationError(_))
    ));
}

#[test]
fn registered_state_ids_are_reported_in_order() {
    let mapping = build_example_mapping();
    let ids = mapping.get_registered_state_id();
    let raw: Vec<u16> = ids.iter().map(|s| *s.get_id()).collect();
    assert_eq!(raw, vec![1, 2, 3, 4]);
}


use fmodel_decider_rust::{Projection, ViewTrait};
use std::collections::HashMap;

#[derive(Debug, PartialEq, Clone)]
enum Event {
    UserRegistered { id: u32, name: String },
    UserUpdated { id: u32, name: String },
    UserDeleted { id: u32 },
}

type UserDirectory = HashMap<u32, String>;

fn make_projection() -> Projection<
    UserDirectory,
    Event,
    impl Fn(&UserDirectory, &Event) -> UserDirectory,
    impl Fn() -> UserDirectory,
> {
    Projection::new(
        |state: &UserDirectory, event: &Event| {
            let mut new_state = state.clone();
            match event {
                Event::UserRegistered { id, name } => {
                    new_state.insert(*id, name.clone());
                }
                Event::UserUpdated { id, name } => {
                    new_state.insert(*id, name.clone());
                }
                Event::UserDeleted { id } => {
                    new_state.remove(id);
                }
            }
            new_state
        },
        || HashMap::new(),
    )
}

#[test]
fn basic_projection_flow() {
    let projection = make_projection();

    let state0 = projection.initial_state();
    assert!(state0.is_empty());

    let state1 = projection.evolve(
        &state0,
        &Event::UserRegistered {
            id: 1,
            name: "Alice".to_string(),
        },
    );
    assert_eq!(state1.get(&1), Some(&"Alice".to_string()));
    assert_eq!(state1.len(), 1);

    let state2 = projection.evolve(
        &state1,
        &Event::UserUpdated {
            id: 1,
            name: "Alice Smith".to_string(),
        },
    );
    assert_eq!(state2.get(&1), Some(&"Alice Smith".to_string()));
    assert_eq!(state2.len(), 1);

    let state3 = projection.evolve(&state2, &Event::UserDeleted { id: 1 });
    assert!(state3.is_empty());
}

#[test]
fn multiple_users_projection() {
    let projection = make_projection();

    let mut state = projection.initial_state();

    state = projection.evolve(
        &state,
        &Event::UserRegistered {
            id: 1,
            name: "Alice".to_string(),
        },
    );
    state = projection.evolve(
        &state,
        &Event::UserRegistered {
            id: 2,
            name: "Bob".to_string(),
        },
    );
    state = projection.evolve(
        &state,
        &Event::UserRegistered {
            id: 3,
            name: "Charlie".to_string(),
        },
    );

    assert_eq!(state.len(), 3);

    state = projection.evolve(
        &state,
        &Event::UserUpdated {
            id: 2,
            name: "Robert".to_string(),
        },
    );

    assert_eq!(state.len(), 3);
    assert_eq!(state.get(&2), Some(&"Robert".to_string()));

    state = projection.evolve(&state, &Event::UserDeleted { id: 1 });

    assert_eq!(state.len(), 2);
    assert_eq!(state.get(&1), None);
    assert_eq!(state.get(&2), Some(&"Robert".to_string()));
    assert_eq!(state.get(&3), Some(&"Charlie".to_string()));
}

#[test]
fn projection_map_state_flow() {
    let projection = make_projection();

    let mapped = projection.map_state(
        |count: &usize| {
            let mut dir = HashMap::new();
            for i in 0..*count {
                dir.insert(i as u32, format!("User{}", i));
            }
            dir
        },
        |dir: &UserDirectory| dir.len(),
    );

    let state0 = mapped.initial_state();
    assert_eq!(state0, 0);

    let state1 = mapped.evolve(
        &state0,
        &Event::UserRegistered {
            id: 1,
            name: "Alice".to_string(),
        },
    );
    assert_eq!(state1, 1);
}

#[test]
fn projection_map_event_flow() {
    let projection = make_projection();

    #[derive(Debug, PartialEq)]
    enum StringEvent {
        UserAction(String),
    }

    let mapped = projection.map_event(|se: &StringEvent| match se {
        StringEvent::UserAction(s) => {
            if s.starts_with("register:") {
                let name = s.strip_prefix("register:").unwrap();
                Event::UserRegistered {
                    id: 1,
                    name: name.to_string(),
                }
            } else if s.starts_with("update:") {
                let name = s.strip_prefix("update:").unwrap();
                Event::UserUpdated {
                    id: 1,
                    name: name.to_string(),
                }
            } else {
                Event::UserDeleted { id: 1 }
            }
        }
    });

    let state0 = mapped.initial_state();
    assert!(state0.is_empty());

    let state1 = mapped.evolve(
        &state0,
        &StringEvent::UserAction("register:Alice".to_string()),
    );
    assert_eq!(state1.get(&1), Some(&"Alice".to_string()));

    let state2 = mapped.evolve(
        &state1,
        &StringEvent::UserAction("update:Alice Smith".to_string()),
    );
    assert_eq!(state2.get(&1), Some(&"Alice Smith".to_string()));

    let state3 = mapped.evolve(&state2, &StringEvent::UserAction("delete".to_string()));
    assert!(state3.is_empty());
}

#[test]
fn projection_composition_flow() {
    let projection = make_projection();

    let composed = projection.map_event(|s: &String| {
        if s.starts_with("add:") {
            let name = s.strip_prefix("add:").unwrap();
            Event::UserRegistered {
                id: 1,
                name: name.to_string(),
            }
        } else {
            Event::UserDeleted { id: 1 }
        }
    });

    let state0 = composed.initial_state();
    assert!(state0.is_empty());

    let state1 = composed.evolve(&state0, &"add:Alice".to_string());
    assert_eq!(state1.len(), 1);
    assert_eq!(state1.get(&1), Some(&"Alice".to_string()));

    let state2 = composed.evolve(&state1, &"remove".to_string());
    assert!(state2.is_empty());
}

#[test]
fn view_trait_usage() {
    let projection = make_projection();

    fn use_view_trait<V>(view: &V, events: &[Event]) -> UserDirectory
    where
        V: ViewTrait<UserDirectory, UserDirectory, Event>,
    {
        let mut state = view.initial_state();
        for event in events {
            state = view.evolve(&state, event);
        }
        state
    }

    let events = vec![
        Event::UserRegistered {
            id: 1,
            name: "Alice".to_string(),
        },
        Event::UserRegistered {
            id: 2,
            name: "Bob".to_string(),
        },
        Event::UserUpdated {
            id: 1,
            name: "Alice Smith".to_string(),
        },
    ];

    let final_state = use_view_trait(&projection, &events);
    assert_eq!(final_state.len(), 2);
    assert_eq!(final_state.get(&1), Some(&"Alice Smith".to_string()));
    assert_eq!(final_state.get(&2), Some(&"Bob".to_string()));
}

#[test]
fn projection_single_threaded_mapping_functions() {
    let projection = make_projection();

    let mapped = projection
        .map_state(
            |count: &usize| {
                let mut dir = HashMap::new();
                for i in 0..*count {
                    dir.insert(i as u32, format!("User{}", i));
                }
                dir
            },
            |dir: &UserDirectory| dir.len(),
        )
        .map_event(|s: &String| Event::UserRegistered {
            id: 1,
            name: s.clone(),
        });

    let state0 = mapped.initial_state();
    assert_eq!(state0, 0);

    let state1 = mapped.evolve(&state0, &"Alice".to_string());
    assert_eq!(state1, 1);
}

// ------------------------------
// Merge tests
// ------------------------------

#[test]
fn merge_initial_state() {
    let counter = Projection::new(|state: &u32, _event: &Event| state + 1, || 0u32);

    let merged = make_projection().merge(counter);
    let state = merged.initial_state();
    assert_eq!(state, (HashMap::new(), 0));
}

#[test]
fn merge_evolve_both() {
    let counter = Projection::new(|state: &u32, _event: &Event| state + 1, || 0u32);

    let merged = make_projection().merge(counter);
    let mut state = merged.initial_state();

    let event = Event::UserRegistered {
        id: 1,
        name: "Alice".to_string(),
    };
    state = merged.evolve(&state, &event);

    assert_eq!(state.0.get(&1), Some(&"Alice".to_string()));
    assert_eq!(state.1, 1);

    let event2 = Event::UserDeleted { id: 1 };
    state = merged.evolve(&state, &event2);

    assert!(state.0.is_empty());
    assert_eq!(state.1, 2);
}

use std::cell::RefCell;
use std::rc::Rc;
use std::sync::mpsc::RecvError;
use tui_event_controller::{EventContext, EventController};

#[derive(Debug, Clone, Copy, PartialEq, Eq)]
enum AppEvent {
    A,
    B,
    C,
    Tagged(u32),
}

#[derive(Default)]
struct AppState {
    seen: Vec<(&'static str, AppEvent)>,
    counter: usize,
}

type Controller = EventController<AppState, AppEvent>;

#[test]
fn registration_replaces_the_listener_under_the_same_key() {
    let controller = Controller::new();
    controller.add_listener("key", |ctx: EventContext<AppState, AppEvent>, state: &mut AppState| {
        state.seen.push(("first", *ctx.event));
    });
    controller.add_listener("key", |ctx: EventContext<AppState, AppEvent>, state: &mut AppState| {
        state.seen.push(("second", *ctx.event));
    });

    let mut state = AppState::default();
    controller.get_sender().send(AppEvent::A).unwrap();
    assert!(controller.recv_and_notify(&mut state).is_ok());

    assert_eq!(state.seen, vec![("second", AppEvent::A)]);
}

#[test]
fn replacing_a_listener_keeps_the_listeners_of_other_keys() {
    let controller = Controller::new();
    controller.add_listener("one", |_ctx: EventContext<AppState, AppEvent>, state: &mut AppState| {
        state.seen.push(("one", AppEvent::A));
    });
    controller.add_listener("two", |_ctx: EventContext<AppState, AppEvent>, state: &mut AppState| {
        state.seen.push(("two", AppEvent::A));
    });
    controller.add_listener("one", |_ctx: EventContext<AppState, AppEvent>, state: &mut AppState| {
        state.seen.push(("one again", AppEvent::A));
    });

    let mut state = AppState::default();
    controller.notify(&AppEvent::A, &mut state);

    assert_eq!(state.seen, vec![("one again", AppEvent::A), ("two", AppEvent::A)]);
}

#[test]
fn unregistering_twice_or_an_unknown_key_is_harmless() {
    let controller = Controller::new();
    controller.remove_listener("never registered");

    controller.add_listener("key", |_ctx: EventContext<AppState, AppEvent>, state: &mut AppState| {
        state.counter += 1;
    });
    controller.remove_listener("key");
    controller.remove_listener("key");

    let mut state = AppState::default();
    controller.notify(&AppEvent::A, &mut state);
    assert_eq!(state.counter, 0);
}

#[test]
fn unregistering_leaves_the_other_listeners() {
    let controller = Controller::new();
    controller.add_listener("stay", |_ctx: EventContext<AppState, AppEvent>, state: &mut AppState| {
        state.seen.push(("stay", AppEvent::B));
    });
    controller.add_listener("leave", |_ctx: EventContext<AppState, AppEvent>, state: &mut AppState| {
        state.seen.push(("leave", AppEvent::B));
    });
    controller.remove_listener("leave");

    let mut state = AppState::default();
    controller.notify(&AppEvent::B, &mut state);
    assert_eq!(state.seen, vec![("stay", AppEvent::B)]);
}

#[test]
fn events_are_delivered_in_the_order_they_were_sent() {
    let controller = Controller::new();
    controller.add_listener("log", |ctx: EventContext<AppState, AppEvent>, state: &mut AppState| {
        state.seen.push(("log", *ctx.event));
    });

    let sender = controller.get_sender();
    sender.send(AppEvent::A).unwrap();
    sender.send(AppEvent::B).unwrap();
    sender.send(AppEvent::C).unwrap();

    let mut state = AppState::default();
    for _ in 0..3 {
        assert_eq!(controller.recv_and_notify(&mut state), Ok(()));
    }

    assert_eq!(
        state.seen,
        vec![("log", AppEvent::A), ("log", AppEvent::B), ("log", AppEvent::C)]
    );
}

#[test]
fn every_listener_is_called_once_per_event_and_sees_the_state_left_by_the_one_before() {
    let controller = Controller::new();
    controller.add_listener("double", |_ctx: EventContext<AppState, AppEvent>, state: &mut AppState| {
        state.counter *= 2;
    });
    controller.add_listener("increment", |_ctx: EventContext<AppState, AppEvent>, state: &mut AppState| {
        state.counter += 1;
    });

    let mut state = AppState { seen: Vec::new(), counter: 5 };
    controller.notify(&AppEvent::A, &mut state);
    assert_eq!(state.counter, 11);
    controller.notify(&AppEvent::A, &mut state);
    assert_eq!(state.counter, 23);
}

#[test]
fn a_pass_without_listeners_leaves_the_state_unchanged() {
    let controller = Controller::new();
    let mut state = AppState { seen: vec![("kept", AppEvent::C)], counter: 7 };
    controller.get_sender().send(AppEvent::A).unwrap();
    assert_eq!(controller.recv_and_notify(&mut state), Ok(()));
    assert_eq!(state.counter, 7);
    assert_eq!(state.seen, vec![("kept", AppEvent::C)]);
}

#[test]
fn a_listener_registered_during_a_pass_is_first_called_in_the_next_pass() {
    let controller = Controller::new();
    controller.add_listener("outer", |ctx: EventContext<AppState, AppEvent>, state: &mut AppState| {
        state.seen.push(("outer", *ctx.event));
        ctx.controller.add_listener(
            "inner",
            |ctx: EventContext<AppState, AppEvent>, state: &mut AppState| {
                state.seen.push(("inner", *ctx.event));
            },
        );
    });

    let mut state = AppState::default();
    controller.notify(&AppEvent::A, &mut state);
    assert_eq!(state.seen, vec![("outer", AppEvent::A)]);

    controller.notify(&AppEvent::B, &mut state);
    assert_eq!(
        state.seen,
        vec![("outer", AppEvent::A), ("outer", AppEvent::B), ("inner", AppEvent::B)]
    );
}

#[test]
fn a_listener_that_replaces_itself_during_a_pass_is_replaced_from_the_next_pass_on() {
    let controller = Controller::new();
    controller.add_listener("self", |ctx: EventContext<AppState, AppEvent>, state: &mut AppState| {
        state.seen.push(("old", *ctx.event));
        ctx.controller.add_listener(
            "self",
            |ctx: EventContext<AppState, AppEvent>, state: &mut AppState| {
                state.seen.push(("new", *ctx.event));
            },
        );
    });

    let mut state = AppState::default();
    controller.notify(&AppEvent::A, &mut state);
    controller.notify(&AppEvent::B, &mut state);
    assert_eq!(state.seen, vec![("old", AppEvent::A), ("new", AppEvent::B)]);
}

#[test]
fn a_listener_removed_during_a_pass_is_still_called_in_that_pass() {
    let controller = Controller::new();
    controller.add_listener("remover", |ctx: EventContext<AppState, AppEvent>, state: &mut AppState| {
        state.seen.push(("remover", *ctx.event));
        ctx.controller.remove_listener("victim");
    });
    controller.add_listener("victim", |ctx: EventContext<AppState, AppEvent>, state: &mut AppState| {
        state.seen.push(("victim", *ctx.event));
    });

    let mut state = AppState::default();
    controller.notify(&AppEvent::A, &mut state);
    controller.notify(&AppEvent::B, &mut state);
    assert_eq!(
        state.seen,
        vec![("remover", AppEvent::A), ("victim", AppEvent::A), ("remover", AppEvent::B)]
    );
}

#[test]
fn a_disconnected_queue_is_reported_without_calling_anyone() {
    let controller = Controller::new();
    controller.add_listener("key", |_ctx: EventContext<AppState, AppEvent>, state: &mut AppState| {
        state.counter += 1;
    });

    let mut state = AppState::default();
    assert_eq!(controller.handle_received(Err(RecvError), &mut state), Err(RecvError));
    assert_eq!(state.counter, 0);
    assert_eq!(controller.handle_received(Err(RecvError), &mut state), Err(RecvError));
    assert_eq!(state.counter, 0);
}

#[test]
fn a_received_event_is_handed_to_the_listeners() {
    let controller = Controller::new();
    controller.add_listener("key", |ctx: EventContext<AppState, AppEvent>, state: &mut AppState| {
        state.seen.push(("key", *ctx.event));
    });

    let mut state = AppState::default();
    assert_eq!(controller.handle_received(Ok(AppEvent::Tagged(9)), &mut state), Ok(()));
    assert_eq!(state.seen, vec![("key", AppEvent::Tagged(9))]);
}

#[test]
fn sending_fails_once_the_controller_is_gone() {
    let controller = Controller::new();
    let sender = controller.get_sender();
    assert!(sender.send(AppEvent::A).is_ok());
    drop(controller);
    assert!(sender.send(AppEvent::B).is_err());
}

#[test]
fn senders_and_clones_of_the_controller_share_one_queue_and_one_registry() {
    let controller = Controller::new();
    let clone = controller.rc_clone();
    clone.add_listener("key", |ctx: EventContext<AppState, AppEvent>, state: &mut AppState| {
        state.seen.push(("key", *ctx.event));
    });

    clone.get_sender().send(AppEvent::A).unwrap();
    controller.get_sender().send(AppEvent::B).unwrap();

    let mut state = AppState::default();
    assert_eq!(controller.recv_and_notify(&mut state), Ok(()));
    assert_eq!(clone.recv_and_notify(&mut state), Ok(()));
    assert_eq!(state.seen, vec![("key", AppEvent::A), ("key", AppEvent::B)]);
}

#[test]
fn the_context_names_the_controller_that_dispatches() {
    let controller = Controller::new();
    let observed = Rc::new(RefCell::new(Vec::new()));
    let sink = Rc::clone(&observed);
    controller.add_listener("key", move |ctx: EventContext<AppState, AppEvent>, _state: &mut AppState| {
        ctx.controller.get_sender().send(AppEvent::Tagged(1)).unwrap();
        sink.borrow_mut().push(*ctx.event);
    });

    let mut state = AppState::default();
    controller.notify(&AppEvent::A, &mut state);
    assert_eq!(controller.recv_and_notify(&mut state), Ok(()));
    assert_eq!(*observed.borrow(), vec![AppEvent::A, AppEvent::Tagged(1)]);
}

#[test]
fn two_producers_lose_and_duplicate_nothing() {
    let controller = Controller::new();
    controller.add_listener("collect", |ctx: EventContext<AppState, AppEvent>, state: &mut AppState| {
        state.seen.push(("collect", *ctx.event));
    });

    let first_producer = controller.get_sender();
    let second_producer = controller.get_sender();
    for i in 0..1000u32 {
        first_producer.send(AppEvent::Tagged(i)).unwrap();
        second_producer.send(AppEvent::Tagged(1000 + i)).unwrap();
    }

    let mut state = AppState::default();
    for _ in 0..2000 {
        assert_eq!(controller.recv_and_notify(&mut state), Ok(()));
    }

    assert_eq!(state.seen.len(), 2000);
    let mut tags: Vec<u32> = state
        .seen
        .iter()
        .map(|(_, event)| match event {
            AppEvent::Tagged(tag) => *tag,
            _ => unreachable!(),
        })
        .collect();
    let first: Vec<u32> = tags.iter().copied().filter(|tag| *tag < 1000).collect();
    let second: Vec<u32> = tags.iter().copied().filter(|tag| *tag >= 1000).collect();
    assert_eq!(first, (0..1000).collect::<Vec<u32>>());
    assert_eq!(second, (1000..2000).collect::<Vec<u32>>());
    tags.sort();
    assert_eq!(tags, (0..2000).collect::<Vec<u32>>());
}

#[test]
fn a_default_controller_is_a_new_controller() {
    let controller = Controller::default();
    let mut state = AppState { seen: Vec::new(), counter: 3 };
    controller.notify(&AppEvent::A, &mut state);
    assert_eq!(state.counter, 3);
    assert!(state.seen.is_empty());
}

#[test]
fn a_clone_is_another_handle_to_the_same_controller() {
    #[derive(Clone, Default)]
    struct Count(u32);

    let controller: EventController<Count, u8> = EventController::new();
    let clone = controller.clone();
    controller.add_listener("count", |ctx: EventContext<Count, u8>, state: &mut Count| {
        state.0 += u32::from(*ctx.event);
    });

    let mut state = Count::default();
    clone.get_sender().send(4).unwrap();
    assert_eq!(clone.recv_and_notify(&mut state), Ok(()));
    clone.remove_listener("count");
    controller.notify(&9, &mut state);
    assert_eq!(state.0, 4);
}

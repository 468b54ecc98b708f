use key_chord::binding_key_mgr::{BindError, BindingKey};
use key_chord::listener::{Listener, ListenerOpt, ListenerProxy, TriggerAction};
use key_chord::virtual_key::{InputKey, KeyCode, KeyOpt};

fn step(key: KeyCode, mods: &[KeyCode]) -> BindingKey {
    BindingKey { key, modifer_keys: mods.to_vec() }
}

fn down(key: KeyCode) -> InputKey {
    InputKey { key, opt: KeyOpt::Down }
}

fn up(key: KeyCode) -> InputKey {
    InputKey { key, opt: KeyOpt::Up }
}

#[test]
fn bind_once_message_carries_the_binding() {
    let mut proxy = ListenerProxy::new();
    let msg = proxy.bind_once(vec![step(KeyCode::KeyA, &[])], 1);
    match msg {
        ListenerOpt::Bind(info) => {
            assert_eq!(info.get_uid(), 1);
            assert_eq!(info.get_first_key(), Some(KeyCode::KeyA));
            assert_eq!(info.get_progress(), 0);
        }
        _ => panic!("expected a Bind message"),
    }
}

#[test]
fn once_callback_runs_at_most_once() {
    // the chord completes twice before the host drains its notifications:
    // the callback is handed out only for the first delivery, and the entry
    // is gone afterward
    let mut proxy = ListenerProxy::new();
    let mut listener = Listener::new();
    let msg = proxy.bind_once(vec![step(KeyCode::KeyA, &[])], 1);
    let (keep, err) = listener.handle_event_opt(msg);
    assert!(keep);
    assert_eq!(err, None);
    assert_eq!(listener.on_input_key(down(KeyCode::KeyA)), vec![1]);
    assert_eq!(listener.on_input_key(up(KeyCode::KeyA)), vec![]);
    assert_eq!(listener.on_input_key(down(KeyCode::KeyA)), vec![1]);
    // the host now drains two notifications for id 1
    assert_eq!(proxy.trigger_callback(1), TriggerAction::RunOnce);
    assert_eq!(proxy.trigger_callback(1), TriggerAction::Nothing);
    // a run-once delivery also unbinds the id in the engine
    let msg = proxy.unbind(1);
    let (keep, _) = listener.handle_event_opt(msg);
    assert!(keep);
    assert_eq!(listener.on_input_key(up(KeyCode::KeyA)), vec![]);
    assert_eq!(listener.on_input_key(down(KeyCode::KeyA)), vec![]);
}

#[test]
fn multi_callback_runs_on_every_completion() {
    let mut proxy = ListenerProxy::new();
    let mut listener = Listener::new();
    let msg = proxy.bind_multi(
        vec![
            step(KeyCode::KeyK, &[KeyCode::ControlLeft]),
            step(KeyCode::KeyC, &[KeyCode::ControlLeft]),
        ],
        2,
    );
    let (keep, err) = listener.handle_event_opt(msg);
    assert!(keep);
    assert_eq!(err, None);
    for _ in 0..3 {
        assert_eq!(listener.on_input_key(down(KeyCode::ControlLeft)), vec![]);
        assert_eq!(listener.on_input_key(down(KeyCode::KeyK)), vec![]);
        assert_eq!(listener.on_input_key(up(KeyCode::KeyK)), vec![]);
        assert_eq!(listener.on_input_key(down(KeyCode::KeyC)), vec![2]);
        assert_eq!(listener.on_input_key(up(KeyCode::KeyC)), vec![]);
        assert_eq!(listener.on_input_key(up(KeyCode::ControlLeft)), vec![]);
        assert_eq!(proxy.trigger_callback(2), TriggerAction::RunMulti);
    }
}

#[test]
fn unbound_id_yields_nothing() {
    let mut proxy = ListenerProxy::new();
    let _ = proxy.bind_multi(vec![step(KeyCode::KeyA, &[])], 3);
    let _ = proxy.unbind(3);
    assert_eq!(proxy.trigger_callback(3), TriggerAction::Nothing);
}

#[test]
fn unknown_id_yields_nothing() {
    let mut proxy = ListenerProxy::new();
    assert_eq!(proxy.trigger_callback(42), TriggerAction::Nothing);
}

#[test]
fn forked_proxy_starts_with_an_empty_table() {
    let mut proxy = ListenerProxy::new();
    let _ = proxy.bind_multi(vec![step(KeyCode::KeyA, &[])], 1);
    let mut sibling = proxy.fork();
    assert_eq!(sibling.trigger_callback(1), TriggerAction::Nothing);
    assert_eq!(proxy.trigger_callback(1), TriggerAction::RunMulti);
}

#[test]
fn rebinding_an_id_replaces_its_callback_kind() {
    let mut proxy = ListenerProxy::new();
    let _ = proxy.bind_once(vec![step(KeyCode::KeyA, &[])], 1);
    let _ = proxy.bind_multi(vec![step(KeyCode::KeyA, &[])], 1);
    assert_eq!(proxy.trigger_callback(1), TriggerAction::RunMulti);
    assert_eq!(proxy.trigger_callback(1), TriggerAction::RunMulti);
}

#[test]
fn stop_message_ends_the_loop() {
    let mut listener = Listener::new();
    let (keep, _) = listener.handle_event_opt(ListenerOpt::StopListen);
    assert!(!keep);
}

#[test]
fn bind_message_with_empty_chord_reports_the_error() {
    let mut proxy = ListenerProxy::new();
    let mut listener = Listener::new();
    let msg = proxy.bind_once(vec![], 1);
    let (keep, err) = listener.handle_event_opt(msg);
    assert!(keep);
    assert_eq!(err, Some(BindError::InvalidChord));
}

#[test]
fn bind_message_with_taken_id_reports_the_error() {
    let mut proxy = ListenerProxy::new();
    let mut listener = Listener::new();
    let msg = proxy.bind_once(vec![step(KeyCode::KeyA, &[])], 1);
    let (_, err) = listener.handle_event_opt(msg);
    assert_eq!(err, None);
    let msg = proxy.bind_once(vec![step(KeyCode::KeyB, &[])], 1);
    let (keep, err) = listener.handle_event_opt(msg);
    assert!(keep);
    assert_eq!(err, Some(BindError::DuplicateId));
}

#[test]
fn unbind_message_removes_the_binding() {
    let mut proxy = ListenerProxy::new();
    let mut listener = Listener::new();
    let msg = proxy.bind_multi(vec![step(KeyCode::KeyA, &[])], 5);
    let _ = listener.handle_event_opt(msg);
    let msg = proxy.unbind(5);
    let (keep, _) = listener.handle_event_opt(msg);
    assert!(keep);
    assert_eq!(listener.on_input_key(down(KeyCode::KeyA)), vec![]);
}

#[test]
fn single_key_once_scenario() {
    // bind [A] as run-once; Down(A) with holding {A} completes it; the
    // drain hands the callback out once and unbinds; a second Down(A)
    // completes nothing and hands nothing out
    let mut proxy = ListenerProxy::new();
    let mut listener = Listener::new();
    let msg = proxy.bind_once(vec![step(KeyCode::KeyA, &[])], 10);
    let (_, err) = listener.handle_event_opt(msg);
    assert_eq!(err, None);
    assert_eq!(listener.on_input_key(down(KeyCode::KeyA)), vec![10]);
    assert_eq!(proxy.trigger_callback(10), TriggerAction::RunOnce);
    let msg = proxy.unbind(10);
    let _ = listener.handle_event_opt(msg);
    assert_eq!(listener.on_input_key(up(KeyCode::KeyA)), vec![]);
    assert_eq!(listener.on_input_key(down(KeyCode::KeyA)), vec![]);
}

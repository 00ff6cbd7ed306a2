use homectl::ui::{entry_of, Ui, UiEntry};
use homectl::websockets::WebSockets;
use serde_json::Value;
use tokio::sync::mpsc::{channel, Receiver};
use warp::ws::Message;

fn text_of(message: Message) -> String {
    message.to_str().unwrap().to_string()
}

fn connect(ws: &mut WebSockets, id: usize, capacity: usize) -> Receiver<Message> {
    let (tx, rx) = channel::<Message>(capacity);
    ws.user_connected(id, tx);
    rx
}

#[test]
fn ui_state_stores_and_replaces_values() {
    let mut ui = Ui::new();
    assert!(ui.get_state().is_empty());
    ui.store_state("zoom".to_string(), Value::from(3));
    ui.store_state("theme".to_string(), Value::from("dark"));
    ui.store_state("zoom".to_string(), Value::from(4));
    assert_eq!(
        ui.get_state(),
        &vec![
            UiEntry { key: "zoom".to_string(), value: Value::from(4) },
            UiEntry { key: "theme".to_string(), value: Value::from("dark") },
        ]
    );
    assert_eq!(ui.get(&"theme".to_string()), Some(&Value::from("dark")));
    assert_eq!(ui.get(&"none".to_string()), None);
}

#[test]
fn ui_state_is_replaced_by_what_the_store_holds() {
    let mut ui = Ui::new();
    ui.store_state("zoom".to_string(), Value::from(3));
    ui.refresh_db_state(Some(vec![UiEntry { key: "a".to_string(), value: Value::Null }]));
    assert_eq!(ui.get_state().len(), 1);
    assert_eq!(ui.get(&"a".to_string()), Some(&Value::Null));
    assert_eq!(ui.get(&"zoom".to_string()), None);
    ui.refresh_db_state(None);
    assert!(ui.get_state().is_empty());
}

#[test]
fn an_entry_copies_key_and_value() {
    let value = Value::from(vec![Value::from(1), Value::from("two")]);
    let entry = entry_of(&"k".to_string(), &value);
    assert_eq!(entry, UiEntry { key: "k".to_string(), value });
}

#[test]
fn users_connect_and_disconnect() {
    let mut ws = WebSockets::new();
    assert_eq!(ws.num_users(), 0);
    let _a = connect(&mut ws, 1, 4);
    let _b = connect(&mut ws, 2, 4);
    assert_eq!(ws.num_users(), 2);
    assert!(ws.is_connected(1));
    // A second connection under an id takes the place of the first.
    let mut again = connect(&mut ws, 1, 4);
    assert_eq!(ws.num_users(), 2);
    assert_eq!(ws.send(Some(1), "hello"), Some(()));
    assert_eq!(text_of(again.try_recv().unwrap()), "hello");
    ws.user_disconnected(1);
    assert_eq!(ws.num_users(), 1);
    assert!(!ws.is_connected(1));
    ws.user_disconnected(1);
    assert_eq!(ws.num_users(), 1);
}

#[test]
fn a_frame_to_all_reaches_every_client() {
    let mut ws = WebSockets::new();
    let mut a = connect(&mut ws, 1, 4);
    let mut b = connect(&mut ws, 2, 4);
    assert_eq!(ws.send(None, "{\"type\":\"State\"}"), Some(()));
    assert_eq!(text_of(a.try_recv().unwrap()), "{\"type\":\"State\"}");
    assert_eq!(text_of(b.try_recv().unwrap()), "{\"type\":\"State\"}");
    assert!(a.try_recv().is_err());
    assert_eq!(ws.send(Some(2), "only b"), Some(()));
    assert!(a.try_recv().is_err());
    assert_eq!(text_of(b.try_recv().unwrap()), "only b");
    assert_eq!(ws.send(Some(9), "nobody"), Some(()));
    assert_eq!(ws.num_users(), 2);
}

#[test]
fn broadcast_with_zero_users_is_a_no_op() {
    let mut ws = WebSockets::new();
    assert_eq!(ws.send(None, "state"), Some(()));
    assert_eq!(ws.num_users(), 0);
}

#[test]
fn a_client_with_a_full_queue_is_removed_during_the_broadcast() {
    let mut ws = WebSockets::new();
    let _u1 = connect(&mut ws, 1, 1);
    let mut u2 = connect(&mut ws, 2, 8);
    assert_eq!(ws.send(None, "first"), Some(()));
    assert_eq!(ws.num_users(), 2);
    // The queue of u1 is full now and is never drained.
    assert_eq!(ws.send(None, "second"), Some(()));
    assert!(!ws.is_connected(1));
    assert!(ws.is_connected(2));
    assert_eq!(ws.num_users(), 1);
    assert_eq!(text_of(u2.try_recv().unwrap()), "first");
    assert_eq!(text_of(u2.try_recv().unwrap()), "second");
}

#[test]
fn a_client_that_is_gone_is_let_go() {
    let mut ws = WebSockets::new();
    let gone = connect(&mut ws, 1, 4);
    let _here = connect(&mut ws, 2, 4);
    drop(gone);
    assert_eq!(ws.send(Some(1), "anyone?"), None);
    assert!(!ws.is_connected(1));
    assert!(ws.is_connected(2));
}

#[test]
fn a_full_queue_fails_a_send_to_one_client() {
    let mut ws = WebSockets::new();
    let _slow = connect(&mut ws, 7, 1);
    assert_eq!(ws.send(Some(7), "one"), Some(()));
    assert_eq!(ws.send(Some(7), "two"), None);
    assert_eq!(ws.num_users(), 0);
}

#[test]
fn settling_and_dropping_follow_the_outcomes() {
    let mut ws = WebSockets::new();
    let _a = connect(&mut ws, 1, 1);
    let _b = connect(&mut ws, 2, 1);
    let _c = connect(&mut ws, 3, 1);
    assert_eq!(ws.settle_unicast(2, true), Some(()));
    assert_eq!(ws.num_users(), 3);
    assert_eq!(ws.drop_undelivered(&vec![false, true, false]), vec![1, 3]);
    assert_eq!(ws.num_users(), 1);
    assert!(ws.is_connected(2));
    assert_eq!(ws.settle_unicast(2, false), None);
    assert_eq!(ws.num_users(), 0);
}

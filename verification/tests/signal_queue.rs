use serial_monitor::signal::{ControlSignal, SendError, SignalQueue};

#[test]
fn new_queue_is_open_and_empty() {
    let mut queue = SignalQueue::new();
    assert!(queue.accepts());
    assert_eq!(queue.waiting(), 0);
    assert_eq!(queue.try_receive(), None);
}

#[test]
fn signals_are_received_in_send_order() {
    let mut queue = SignalQueue::new();
    assert_eq!(queue.send(ControlSignal::SendCommand), Ok(()));
    assert_eq!(queue.send(ControlSignal::Stop), Ok(()));
    assert_eq!(queue.send(ControlSignal::SendCommand), Ok(()));
    assert_eq!(queue.waiting(), 3);
    assert_eq!(queue.try_receive(), Some(ControlSignal::SendCommand));
    assert_eq!(queue.try_receive(), Some(ControlSignal::Stop));
    assert_eq!(queue.try_receive(), Some(ControlSignal::SendCommand));
    assert_eq!(queue.try_receive(), None);
    assert_eq!(queue.waiting(), 0);
}

#[test]
fn two_equal_signals_are_both_kept() {
    let mut queue = SignalQueue::new();
    queue.send(ControlSignal::SendCommand).unwrap();
    queue.send(ControlSignal::SendCommand).unwrap();
    assert_eq!(queue.waiting(), 2);
    assert_eq!(queue.try_receive(), Some(ControlSignal::SendCommand));
    assert_eq!(queue.try_receive(), Some(ControlSignal::SendCommand));
    assert_eq!(queue.try_receive(), None);
}

#[test]
fn receiving_from_an_empty_queue_leaves_it_open() {
    let mut queue = SignalQueue::new();
    assert_eq!(queue.try_receive(), None);
    assert!(queue.accepts());
    assert_eq!(queue.send(ControlSignal::Stop), Ok(()));
    assert_eq!(queue.try_receive(), Some(ControlSignal::Stop));
}

#[test]
fn send_after_close_fails_as_disconnected() {
    let mut queue = SignalQueue::new();
    queue.close();
    assert!(!queue.accepts());
    assert_eq!(queue.send(ControlSignal::Stop), Err(SendError::Disconnected));
    assert_eq!(queue.send(ControlSignal::SendCommand), Err(SendError::Disconnected));
    assert_eq!(queue.waiting(), 0);
    assert_eq!(queue.try_receive(), None);
}

#[test]
fn close_drops_what_waits() {
    let mut queue = SignalQueue::new();
    queue.send(ControlSignal::SendCommand).unwrap();
    queue.send(ControlSignal::Stop).unwrap();
    queue.close();
    assert_eq!(queue.waiting(), 0);
    assert_eq!(queue.try_receive(), None);
}

#[test]
fn closing_twice_is_harmless() {
    let mut queue = SignalQueue::new();
    queue.close();
    queue.close();
    assert!(!queue.accepts());
    assert_eq!(queue.send(ControlSignal::Stop), Err(SendError::Disconnected));
}

#[test]
fn signals_carry_the_names_of_their_triggers() {
    assert_eq!(ControlSignal::Stop.event_name(), "stopSerial");
    assert_eq!(ControlSignal::SendCommand.event_name(), "sendCommand");
}

use agama_network::action::{Action, ActionQueue};
use agama_network::backend::{HandOver, Refusal};
use agama_network::interfaces::{Connection, Connections, Ipv4};
use agama_network::model;
use agama_network::types::DeviceType;
use async_std::channel::{bounded, unbounded};

fn three_intents() -> ActionQueue {
    let mut q = ActionQueue::new();
    Connections::add_connection(&mut q, "a".to_string(), 1).unwrap();
    Connections::remove_connection(&mut q, "b").unwrap();
    Connections::apply(&mut q).unwrap();
    q
}

#[test]
fn the_channel_gets_the_intents_in_order() {
    let (sender, receiver) = unbounded::<Action>();
    let mut q = three_intents();
    assert_eq!(q.forward(&sender), (3, HandOver::Done));
    assert!(q.is_empty());
    assert!(!q.closed());
    assert!(matches!(receiver.try_recv(), Ok(Action::AddConnection(id, DeviceType::Ethernet)) if id == "a"));
    assert!(matches!(receiver.try_recv(), Ok(Action::RemoveConnection(id)) if id == "b"));
    assert!(matches!(receiver.try_recv(), Ok(Action::Apply)));
    assert!(receiver.try_recv().is_err());
    assert_eq!(q.forward(&sender), (0, HandOver::Done));
}

#[test]
fn a_write_reaches_the_backend_as_a_snapshot() {
    let (sender, receiver) = unbounded::<Action>();
    let mut c = model::Connection::new("eth0".to_string(), DeviceType::Ethernet);
    let mut q = ActionQueue::new();
    Ipv4::set_gateway(&mut c, &mut q, "10.0.0.1".to_string()).unwrap();
    Connection::set_interface(&mut c, &mut q, "enp1s0").unwrap();
    assert_eq!(q.forward(&sender), (2, HandOver::Done));
    match receiver.try_recv() {
        Ok(Action::UpdateConnection(first)) => {
            assert_eq!(Ipv4::gateway(&first), "10.0.0.1");
            assert_eq!(first.interface(), "");
        }
        other => panic!("{:?}", other),
    }
    match receiver.try_recv() {
        Ok(Action::UpdateConnection(second)) => {
            assert_eq!(Ipv4::gateway(&second), "10.0.0.1");
            assert_eq!(second.interface(), "enp1s0");
        }
        other => panic!("{:?}", other),
    }
}

#[test]
fn a_full_channel_leaves_the_rest_waiting() {
    let (sender, receiver) = bounded::<Action>(2);
    let mut q = three_intents();
    assert_eq!(q.forward(&sender), (2, HandOver::Full));
    assert_eq!(q.len(), 1);
    assert!(!q.closed());
    assert!(matches!(receiver.try_recv(), Ok(Action::AddConnection(_, _))));
    Connections::add_connection(&mut q, "late".to_string(), 2).unwrap();
    assert_eq!(q.forward(&sender), (1, HandOver::Full));
    assert!(matches!(receiver.try_recv(), Ok(Action::RemoveConnection(_))));
    assert!(matches!(receiver.try_recv(), Ok(Action::Apply)));
    assert_eq!(q.forward(&sender), (1, HandOver::Done));
    assert!(matches!(receiver.try_recv(), Ok(Action::AddConnection(id, DeviceType::Wireless)) if id == "late"));
}

#[test]
fn a_backend_that_is_gone_closes_the_queue() {
    let (sender, receiver) = unbounded::<Action>();
    drop(receiver);
    let mut q = three_intents();
    assert_eq!(q.forward(&sender), (0, HandOver::Closed));
    assert!(q.closed());
    assert_eq!(q.len(), 3);
    assert!(Connections::apply(&mut q).is_err());
    assert!(matches!(q.dequeue(), Some(Action::AddConnection(_, _))));
    assert!(matches!(q.dequeue(), Some(Action::RemoveConnection(_))));
    assert!(matches!(q.dequeue(), Some(Action::Apply)));
    assert!(q.dequeue().is_none());
}

#[test]
fn an_intent_given_back_waits_at_the_front() {
    let mut q = three_intents();
    let first = q.dequeue().unwrap();
    assert_eq!(q.settle(Err(Refusal::Full(first))), HandOver::Full);
    assert!(!q.closed());
    assert_eq!(q.len(), 3);
    let first = q.dequeue().unwrap();
    assert!(matches!(first, Action::AddConnection(_, _)));
    assert_eq!(q.settle(Ok(())), HandOver::Done);
    assert_eq!(q.len(), 2);
    let second = q.dequeue().unwrap();
    assert_eq!(q.settle(Err(Refusal::Closed(second))), HandOver::Closed);
    assert!(q.closed());
    assert!(matches!(q.dequeue(), Some(Action::RemoveConnection(_))));
    q.put_back(Action::Apply);
    assert!(matches!(q.dequeue(), Some(Action::Apply)));
    assert!(matches!(q.dequeue(), Some(Action::Apply)));
}

use rbuilder_constraints::collections::sorting::descending;
use rbuilder_constraints::constraint_input::config::{
    bridge, take_batch, ConstraintInputConfig, COMMAND_BATCH, CONSTRAINT_INPUT_BUFFER,
};
use rbuilder_constraints::constraint_input::constraint_sink::{
    ConstraintPoolCommand, ConstraintPrinter, ConstraintSender2ConstraintSink, ConstraintSink,
};
use rbuilder_constraints::constraint_input::constraintpool::{ConstraintPool, ConstraintsForSlot};
use rbuilder_constraints::constraint_input::messages::{Constraint, ConstraintsMessage};

fn message(slot: u64, payload: u8) -> ConstraintsMessage {
    ConstraintsMessage { slot, constraints: vec![Constraint { payload: vec![payload] }] }
}

fn insert(slot: u64, payload: u8) -> ConstraintPoolCommand {
    ConstraintPoolCommand::Insert(message(slot, payload))
}

fn payloads(message: &ConstraintsMessage) -> Vec<u8> {
    message.constraints.iter().map(|c| c.payload[0]).collect()
}

#[test]
fn constraints_are_stored_by_slot() {
    let mut pool: ConstraintPool<ConstraintPrinter> = ConstraintPool::new();
    pool.process_commands(vec![insert(5, 1), insert(6, 2)]);
    let five = pool.get_constraints_for_slot(5);
    assert_eq!((five.slot, payloads(&five)), (5, vec![1]));
    assert_eq!(payloads(&pool.get_constraints_for_slot(6)), vec![2]);
    // The slots before the one that was asked for have expired.
    let none = pool.get_constraints_for_slot(5);
    assert_eq!((none.slot, none.constraints.len()), (0, 0));
}

#[test]
fn second_message_for_a_slot_is_dropped() {
    let mut pool: ConstraintPool<ConstraintPrinter> = ConstraintPool::default();
    pool.process_commands(vec![insert(5, 1), insert(5, 2)]);
    assert_eq!(payloads(&pool.get_constraints_for_slot(5)), vec![1]);
    pool.process_commands(vec![ConstraintPoolCommand::RemoveSlot(5), insert(5, 3)]);
    assert!(pool.get_constraints_for_slot(5).constraints.is_empty());
}

#[test]
fn slot_is_forgotten_after_a_thousand_others() {
    let mut pool: ConstraintPool<ConstraintPrinter> = ConstraintPool::new();
    pool.process_commands((0..1000).map(|slot| insert(slot, 1)).collect());
    pool.process_commands(vec![ConstraintPoolCommand::RemoveSlot(0), insert(0, 2)]);
    assert!(pool.get_constraints_for_slot(0).constraints.is_empty());
    pool.process_commands(vec![insert(1000, 1), insert(0, 3)]);
    assert_eq!(payloads(&pool.get_constraints_for_slot(0)), vec![3]);
}

#[test]
fn sink_is_sent_what_concerns_its_slot() {
    let mut pool: ConstraintPool<ConstraintSender2ConstraintSink> = ConstraintPool::new();
    pool.process_commands(vec![insert(5, 1)]);
    let (mut five, sink) = ConstraintsForSlot::new_with_sink();
    let id = pool.add_sink(5, sink);
    let (mut six, sink) = ConstraintsForSlot::new_with_sink();
    let other = pool.add_sink(6, sink);
    assert_ne!(id, other);
    pool.process_commands(vec![insert(6, 2), ConstraintPoolCommand::RemoveSlot(5)]);
    // The stored message is replayed, then the commands about the slot follow.
    assert!(matches!(
        five.new_constraint_sub.try_recv(),
        Ok(ConstraintPoolCommand::Insert(m)) if payloads(&m) == vec![1]
    ));
    assert!(matches!(
        five.new_constraint_sub.try_recv(),
        Ok(ConstraintPoolCommand::RemoveSlot(5))
    ));
    assert!(five.new_constraint_sub.try_recv().is_err());
    assert!(matches!(
        six.new_constraint_sub.try_recv(),
        Ok(ConstraintPoolCommand::Insert(m)) if payloads(&m) == vec![2]
    ));
    assert!(pool.remove_sink(&id).is_some());
    assert!(pool.remove_sink(&id).is_none());
}

#[test]
fn each_sink_feeds_its_own_receiver() {
    let (mut first, mut sink) = ConstraintsForSlot::new_with_sink();
    let (mut second, mut other) = ConstraintsForSlot::new_with_sink();
    assert!(sink.insert_constraint(message(1, 7)));
    assert!(second.new_constraint_sub.try_recv().is_err());
    assert!(matches!(
        first.new_constraint_sub.try_recv(),
        Ok(ConstraintPoolCommand::Insert(m)) if payloads(&m) == vec![7]
    ));
    assert!(other.remove_constraints_for_slot(2));
    assert!(first.new_constraint_sub.try_recv().is_err());
    assert!(matches!(
        second.new_constraint_sub.try_recv(),
        Ok(ConstraintPoolCommand::RemoveSlot(2))
    ));
}

#[test]
fn expired_slot_is_announced_and_its_subscription_dropped() {
    let mut pool: ConstraintPool<ConstraintSender2ConstraintSink> = ConstraintPool::new();
    let (mut five, sink) = ConstraintsForSlot::new_with_sink();
    let expired = pool.add_sink(5, sink);
    let (mut six, sink) = ConstraintsForSlot::new_with_sink();
    let current = pool.add_sink(6, sink);
    pool.process_commands(vec![insert(5, 1), insert(6, 2)]);
    pool.slot_updated(6);
    assert!(matches!(five.new_constraint_sub.try_recv(), Ok(ConstraintPoolCommand::Insert(_))));
    assert!(matches!(
        five.new_constraint_sub.try_recv(),
        Ok(ConstraintPoolCommand::RemoveSlot(5))
    ));
    assert!(pool.remove_sink(&expired).is_none());
    assert!(matches!(six.new_constraint_sub.try_recv(), Ok(ConstraintPoolCommand::Insert(_))));
    assert!(six.new_constraint_sub.try_recv().is_err());
    assert!(pool.remove_sink(&current).is_some());
    assert_eq!(payloads(&pool.get_constraints_for_slot(6)), vec![2]);
}

#[test]
fn dead_sink_is_dropped() {
    let mut pool: ConstraintPool<ConstraintSender2ConstraintSink> = ConstraintPool::new();
    let (receiver, sink) = ConstraintsForSlot::new_with_sink();
    assert!(sink.is_alive());
    let id = pool.add_sink(5, sink);
    drop(receiver);
    pool.process_commands(vec![insert(9, 1)]);
    assert!(pool.remove_sink(&id).is_none());
    let (receiver, mut sink) = ConstraintsForSlot::new_with_sink();
    assert!(sink.insert_constraint(message(1, 1)));
    drop(receiver);
    assert!(!sink.is_alive());
    assert!(!sink.insert_constraint(message(1, 1)));
    assert!(!sink.remove_constraints_for_slot(1));
    assert!(!sink.is_alive());
}

#[test]
fn printer_takes_everything_in() {
    let mut pool: ConstraintPool<ConstraintPrinter> = ConstraintPool::new();
    let id = pool.add_sink(5, ConstraintPrinter);
    pool.process_commands(vec![insert(5, 1), ConstraintPoolCommand::RemoveSlot(5)]);
    let mut printer = pool.remove_sink(&id).unwrap();
    assert!(printer.is_alive());
    assert!(printer.insert_constraint(message(1, 1)));
    assert!(printer.remove_constraints_for_slot(1));
}

#[test]
fn batches_are_processed_until_none_come() {
    let mut pool: ConstraintPool<ConstraintPrinter> = ConstraintPool::new();
    assert!(take_batch(&mut pool, Some(vec![bridge(message(3, 4))])));
    assert!(!take_batch(&mut pool, Some(vec![])));
    assert!(!take_batch(&mut pool, None));
    assert_eq!(payloads(&pool.get_constraints_for_slot(3)), vec![4]);
    assert_eq!(COMMAND_BATCH, 100);
}

#[test]
fn input_is_configured() {
    let config = ConstraintInputConfig::default();
    assert!(config.enabled);
    assert_eq!(config.server_port, 8547);
    assert_eq!(config.server_ip, [0, 0, 0, 0]);
    assert_eq!(config.serve_max_connections, 4096);
    assert_eq!(config.results_channel_timeout, 50);
    assert_eq!(config.submission_buffer(), Some(CONSTRAINT_INPUT_BUFFER));
    assert_eq!(CONSTRAINT_INPUT_BUFFER, 10_000);
    let off = ConstraintInputConfig::new(false, 1, [127, 0, 0, 1], 2, 3);
    assert_eq!(off.submission_buffer(), None);
    assert_eq!((off.server_port, off.server_ip), (1, [127, 0, 0, 1]));
    assert_eq!((off.serve_max_connections, off.results_channel_timeout), (2, 3));
}

#[test]
fn numbers_are_sorted_from_the_top() {
    assert_eq!(descending(&vec![3, 9, 1, 7, 4]), vec![9, 7, 4, 3, 1]);
    assert!(descending(&vec![]).is_empty());
}

use quickstart_with_aiven_kafka_using_rust::dispatch::{
    DispatchAction, DispatchError, DispatchEvent, DispatchLoop, DispatchState, Strategy,
    TransportError,
};
use quickstart_with_aiven_kafka_using_rust::SerializationError;

#[test]
fn concurrent_fail_fast_halts_despite_the_other_success() {
    let mut l = DispatchLoop::new(Strategy::Concurrent, 2);
    assert_eq!(l.current_action(), Some(DispatchAction::PublishAll));
    let a = l.step(DispatchEvent::AllCompleted(vec![
        Ok(()),
        Err(DispatchError::Transport(TransportError::Timeout)),
    ]));
    assert_eq!(
        a,
        DispatchAction::Halt(DispatchError::Transport(TransportError::Timeout))
    );
    assert_eq!(l.state, DispatchState::Halted);
    assert_eq!(l.current_action(), None);
}

#[test]
fn concurrent_all_ok_sleeps_and_starts_the_next_cycle() {
    let mut l = DispatchLoop::new(Strategy::Concurrent, 2);
    let a = l.step(DispatchEvent::AllCompleted(vec![Ok(()), Ok(())]));
    assert_eq!(a, DispatchAction::Sleep);
    assert_eq!(l.state, DispatchState::Sleeping);
    let a = l.step(DispatchEvent::SleepFinished);
    assert_eq!(a, DispatchAction::PublishAll);
    assert_eq!(l.state, DispatchState::FanOut);
}

#[test]
fn join_surfaces_the_first_failure() {
    let mut l = DispatchLoop::new(Strategy::Concurrent, 2);
    let a = l.step(DispatchEvent::AllCompleted(vec![
        Err(DispatchError::Transport(TransportError::Timeout)),
        Err(DispatchError::Transport(TransportError::Connection)),
    ]));
    assert_eq!(
        a,
        DispatchAction::Halt(DispatchError::Transport(TransportError::Timeout))
    );
}

#[test]
fn sequential_short_circuit_never_reaches_the_second_sensor() {
    let mut l = DispatchLoop::new(Strategy::Sequential, 2);
    assert_eq!(l.current_action(), Some(DispatchAction::Publish(0)));
    let a = l.step(DispatchEvent::Completed(Err(DispatchError::Transport(
        TransportError::Connection,
    ))));
    assert!(!matches!(a, DispatchAction::Publish(_)));
    assert_eq!(
        a,
        DispatchAction::Halt(DispatchError::Transport(TransportError::Connection))
    );
    assert_eq!(l.state, DispatchState::Halted);
}

#[test]
fn sequential_cycle_walks_the_sensors_in_order() {
    let mut l = DispatchLoop::new(Strategy::Sequential, 2);
    assert_eq!(l.current_action(), Some(DispatchAction::Publish(0)));
    let a = l.step(DispatchEvent::Completed(Ok(())));
    assert_eq!(a, DispatchAction::Publish(1));
    let a = l.step(DispatchEvent::Completed(Ok(())));
    assert_eq!(a, DispatchAction::Sleep);
    let a = l.step(DispatchEvent::SleepFinished);
    assert_eq!(a, DispatchAction::Publish(0));
}

#[test]
fn serialization_failure_is_fatal_like_transport() {
    let mut l = DispatchLoop::new(Strategy::Sequential, 2);
    let a = l.step(DispatchEvent::Completed(Err(DispatchError::Serialization(
        SerializationError::Unencodable,
    ))));
    assert_eq!(
        a,
        DispatchAction::Halt(DispatchError::Serialization(SerializationError::Unencodable))
    );
    assert_eq!(l.state, DispatchState::Halted);
}

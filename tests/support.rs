use netcore::trie::Trie;
use netcore::debug_log::{debug_log, OnScreenDebugLog, MAX_LOG_SIZE};
use netcore::events::Events;
use netcore::extent::Extent;
use netcore::input::PlayerInput;
use netcore::session::{
    connection_allowed, link_status, next_phase, ConnectionPhase, LinkStatus, PhaseEvent,
    TransportKind,
};
use netcore::sides::{Side, Sided};

#[test]
fn connection_phases() {
    let mut p = ConnectionPhase::Connecting;
    p = next_phase(p, PhaseEvent::Accepted);
    assert_eq!(p, ConnectionPhase::Snapshotting);
    assert_eq!(next_phase(p, PhaseEvent::SendFailed), ConnectionPhase::Disconnected);
    p = next_phase(p, PhaseEvent::SnapshotSent);
    assert_eq!(p, ConnectionPhase::Active);
    p = next_phase(p, PhaseEvent::TimedOut);
    assert_eq!(p, ConnectionPhase::Disconnected);
    assert_eq!(next_phase(p, PhaseEvent::Accepted), ConnectionPhase::Disconnected);
    assert!(connection_allowed(TransportKind::Local, TransportKind::Local));
    assert!(!connection_allowed(TransportKind::Local, TransportKind::Networked));
}

#[test]
fn link_status_thresholds() {
    assert_eq!(link_status(9), LinkStatus::Stable);
    assert_eq!(link_status(10), LinkStatus::Unstable);
    assert_eq!(link_status(29), LinkStatus::Unstable);
    assert_eq!(link_status(30), LinkStatus::Disconnected);
}

#[test]
fn debug_log_keeps_last_lines() {
    let mut log = OnScreenDebugLog::new();
    for i in 0..12 {
        debug_log(&mut log, format!("line {i}"));
    }
    let lines = log.get();
    assert_eq!(lines.len(), MAX_LOG_SIZE);
    assert_eq!(lines[0], "line 2");
    assert_eq!(lines[9], "line 11");
}

#[test]
fn events_buffer() {
    let mut e: Events<u8> = Events::new();
    e.send(1);
    e.send(2);
    assert_eq!(e.values(), &[1, 2]);
    e.clear();
    assert!(e.values().is_empty());
}

#[test]
fn extent_packing() {
    let x = Extent::new(3, 5);
    assert_eq!(x.start(), 3);
    assert_eq!(x.extent(), 5);
    assert_eq!(x.end(), 8);
    let y = Extent::new(17, 31);
    assert_eq!((y.start(), y.extent()), (1, 15));
}

#[test]
fn sided_values() {
    let mut s = Sided::new(0u8);
    s.set(Side::PosY, 4);
    assert_eq!(*s.get(Side::PosY), 4);
    assert_eq!(*s.get(Side::NegY), 0);
}

#[test]
fn input_keys() {
    let mut i = PlayerInput::default();
    i.update(17, true);
    i.update(57, true);
    i.update(99, true);
    assert!(i.forward && i.upward && !i.backward);
    i.update(17, false);
    assert!(!i.forward);
}

#[test]
fn trie_suggests_in_insertion_order() {
    let mut t = Trie::new();
    t.insert("increase_speed");
    t.insert("inspect");
    t.insert("increase_speed");
    t.insert("quit");
    assert_eq!(t.suggest_completions("in"), vec!["increase_speed".to_string(), "inspect".to_string()]);
    assert_eq!(t.suggest_completions("incr"), vec!["increase_speed".to_string()]);
    assert_eq!(t.suggest_completions("x").len(), 0);
    assert_eq!(t.suggest_completions("").len(), 3);
    assert!(t.contains("quit"));
    assert!(!t.contains("qui"));
}

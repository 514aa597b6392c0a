use pumpkin::address::scrub_address;
use pumpkin::lifecycle::{
    next_client_id, ConnectionFlags, ConnectionLifecycle, LifecycleAction, LifecyclePhase,
};

#[test]
fn promote_then_close_runs_registry_operations_once() {
    let mut flags = ConnectionFlags::new();
    let mut lc = ConnectionLifecycle::new();
    assert_eq!(lc.phase, LifecyclePhase::Connecting);

    // nothing fired yet: the task keeps polling the raw connection
    let a = lc.step(flags.closed, flags.promote);
    assert_eq!(a, LifecycleAction::PollClient);
    assert_eq!(lc.phase, LifecyclePhase::ClientPolling);
    let a = lc.step(flags.closed, flags.promote);
    assert_eq!(a, LifecycleAction::PollClient);

    // promotion fires: registration is ordered exactly once
    flags.set_promote();
    let a = lc.step(flags.closed, flags.promote);
    assert_eq!(a, LifecycleAction::RegisterParticipant);
    assert_eq!(lc.phase, LifecyclePhase::PlayerPolling);
    assert_eq!(lc.registrations, 1);
    assert_eq!(lc.removals, 0);

    // still open: the task polls the participant
    let a = lc.step(flags.closed, flags.promote);
    assert_eq!(a, LifecycleAction::PollPlayer);
    assert_eq!(lc.registrations, 1);

    // closure fires: removal is ordered exactly once
    flags.set_closed();
    let a = lc.step(flags.closed, flags.promote);
    assert_eq!(a, LifecycleAction::RemoveParticipant);
    assert_eq!(lc.phase, LifecyclePhase::Closed);
    assert_eq!(lc.registrations, 1);
    assert_eq!(lc.removals, 1);

    // the terminal phase orders nothing further
    let a = lc.step(flags.closed, flags.promote);
    assert_eq!(a, LifecycleAction::Finished);
    assert_eq!(lc.registrations, 1);
    assert_eq!(lc.removals, 1);
}

#[test]
fn close_before_promote_never_registers() {
    let mut flags = ConnectionFlags::new();
    let mut lc = ConnectionLifecycle::new();
    flags.set_closed();
    let a = lc.step(flags.closed, flags.promote);
    assert_eq!(a, LifecycleAction::Finished);
    assert_eq!(lc.phase, LifecyclePhase::Closed);
    assert_eq!(lc.registrations, 0);
    assert_eq!(lc.removals, 0);
}

#[test]
fn promotion_wins_when_both_flags_fired() {
    let mut flags = ConnectionFlags::new();
    let mut lc = ConnectionLifecycle::new();
    flags.set_promote();
    flags.set_closed();
    let a = lc.step(flags.closed, flags.promote);
    assert_eq!(a, LifecycleAction::RegisterParticipant);
    let a = lc.step(flags.closed, flags.promote);
    assert_eq!(a, LifecycleAction::RemoveParticipant);
    assert_eq!(lc.registrations, 1);
    assert_eq!(lc.removals, 1);
}

#[test]
fn flags_are_monotonic_and_idempotent() {
    let mut flags = ConnectionFlags::new();
    flags.set_closed();
    let snapshot = flags;
    flags.set_closed();
    assert_eq!(flags, snapshot);
    flags.set_promote();
    assert!(flags.closed && flags.promote);
    flags.set_promote();
    assert!(flags.closed && flags.promote);
}

#[test]
fn client_ids_wrap_around() {
    assert_eq!(next_client_id(0), 1);
    assert_eq!(next_client_id(41), 42);
    assert_eq!(next_client_id(65535), 0);
}

#[test]
fn scrubbing_masks_everything_but_separators() {
    assert_eq!(scrub_address("192.168.0.1", true), "xxx.xxx.x.x");
    assert_eq!(scrub_address("::1", true), "::x");
    assert_eq!(scrub_address("192.168.0.1", false), "192.168.0.1");
    assert_eq!(scrub_address("", true), "");
}

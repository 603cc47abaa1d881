use prefix_gateway::limits::{
    next_body_action, BodyAction, BufferLimit, BufferMode, OverflowPolicy,
};

#[test]
fn chunk_under_the_cap_is_buffered() {
    let limit = BufferLimit { max_bytes: 100, policy: OverflowPolicy::Abort };
    let (mode, action) = next_body_action(BufferMode::Buffering, 40, 60, &limit);
    assert_eq!(mode, BufferMode::Buffering);
    assert_eq!(action, BodyAction::Buffer);
}

#[test]
fn overflow_aborts_under_abort_policy() {
    let limit = BufferLimit { max_bytes: 100, policy: OverflowPolicy::Abort };
    let (mode, action) = next_body_action(BufferMode::Buffering, 40, 61, &limit);
    assert_eq!(mode, BufferMode::Buffering);
    assert_eq!(action, BodyAction::Abort);
}

#[test]
fn overflow_degrades_under_passthrough_policy() {
    let limit = BufferLimit { max_bytes: 100, policy: OverflowPolicy::RawPassthrough };
    let (mode, action) = next_body_action(BufferMode::Buffering, 100, 1, &limit);
    assert_eq!(mode, BufferMode::Passthrough);
    assert_eq!(action, BodyAction::FlushRaw);
}

#[test]
fn passthrough_mode_stays_raw() {
    let limit = BufferLimit { max_bytes: 100, policy: OverflowPolicy::RawPassthrough };
    let (mode, action) = next_body_action(BufferMode::Passthrough, 0, 1, &limit);
    assert_eq!(mode, BufferMode::Passthrough);
    assert_eq!(action, BodyAction::PassRaw);
}

#[test]
fn huge_chunk_cannot_wrap_the_arithmetic() {
    let limit = BufferLimit { max_bytes: 100, policy: OverflowPolicy::Abort };
    let (_, action) = next_body_action(BufferMode::Buffering, 1, usize::MAX, &limit);
    assert_eq!(action, BodyAction::Abort);
}

use sleppa_context::context::get_current_context;
use sleppa_context::{Context, Slot};

#[derive(Debug, PartialEq)]
struct UserId(u64);

#[derive(Debug, PartialEq)]
struct RequestId(u64);

#[derive(Debug, PartialEq)]
struct UserProperty(&'static str);

const USER: &str = "admin";

#[test]
fn unbound_slot_gives_the_empty_context() {
    let slot = Slot::new();
    let current = Context::current(Some(&slot));
    assert_eq!(current.len(), 0);
    assert_eq!(current.get::<UserId>(), None);
    assert_eq!(current.get::<RequestId>(), None);
    assert_eq!(current.get::<u8>(), None);
}

#[test]
fn default_slot_gives_the_empty_context() {
    let slot = Slot::default();
    assert_eq!(slot.context().len(), 0);
    assert_eq!(Context::current(Some(&slot)).get::<UserId>(), None);
}

#[test]
fn missing_slot_gives_the_empty_context() {
    let current = Context::current(None);
    assert_eq!(current.len(), 0);
    assert_eq!(current.get::<UserId>(), None);
}

#[test]
fn bound_context_is_current_until_the_guard_is_released() {
    let mut slot = Slot::new();
    let mut guard = Context::new()
        .with_property(UserId(42))
        .bind(Some(&mut slot));

    assert_eq!(
        Context::current(Some(&slot)).get::<UserId>(),
        Some(&UserId(42))
    );

    guard.release(Some(&mut slot));

    assert_eq!(Context::current(Some(&slot)).get::<UserId>(), None);
}

#[test]
fn bound_user_property_is_read_and_then_gone() {
    let mut slot = Slot::new();
    let new_context = Context::new().with_property(UserProperty(USER));
    let mut guard = new_context.bind(Some(&mut slot));
    assert_eq!(
        Context::current(Some(&slot)).get::<UserProperty>(),
        Some(&UserProperty(USER))
    );
    guard.release(Some(&mut slot));
    assert_eq!(Context::current(Some(&slot)).get::<UserProperty>(), None);
}

#[test]
fn release_restores_the_baseline_exactly() {
    let mut slot = Slot::new();
    let baseline = Context::new()
        .with_property(UserId(1))
        .with_property(RequestId(2));
    let mut base_guard = baseline.bind(Some(&mut slot));
    let kept = Context::current(Some(&slot));
    let kept_user: &UserId = kept.get::<UserId>().unwrap();

    let mut guard = Context::new()
        .with_property(UserId(9))
        .bind(Some(&mut slot));
    let during = Context::current(Some(&slot));
    assert_eq!(during.get::<UserId>(), Some(&UserId(9)));
    assert_eq!(during.get::<RequestId>(), None);
    assert_eq!(during.len(), 1);

    guard.release(Some(&mut slot));
    let after = Context::current(Some(&slot));
    assert_eq!(after.len(), 2);
    assert_eq!(after.get::<UserId>(), Some(&UserId(1)));
    assert_eq!(after.get::<RequestId>(), Some(&RequestId(2)));
    assert!(std::ptr::eq(kept_user, after.get::<UserId>().unwrap()));

    base_guard.release(Some(&mut slot));
    assert_eq!(Context::current(Some(&slot)).len(), 0);
}

#[test]
fn guard_records_the_replaced_context() {
    let mut slot = Slot::new();
    let mut first = Context::new()
        .with_property(UserId(1))
        .bind(Some(&mut slot));
    assert_eq!(first.previous_context().map(|c| c.len()), Some(0));

    let mut second = Context::new()
        .with_property(UserId(2))
        .bind(Some(&mut slot));
    assert_eq!(
        second.previous_context().and_then(|c| c.get::<UserId>()),
        Some(&UserId(1))
    );

    second.release(Some(&mut slot));
    assert!(second.previous_context().is_none());
    first.release(Some(&mut slot));
    assert!(first.previous_context().is_none());
}

#[test]
fn nested_guards_released_in_reverse_unwind_like_a_stack() {
    let mut slot = Slot::new();
    let mut base = Context::new()
        .with_property(UserId(0))
        .bind(Some(&mut slot));
    let mut outer = Context::new()
        .with_property(UserId(1))
        .bind(Some(&mut slot));
    let mut inner = Context::new()
        .with_property(UserId(2))
        .bind(Some(&mut slot));
    assert_eq!(slot.context().get::<UserId>(), Some(&UserId(2)));

    inner.release(Some(&mut slot));
    assert_eq!(slot.context().get::<UserId>(), Some(&UserId(1)));

    outer.release(Some(&mut slot));
    assert_eq!(slot.context().get::<UserId>(), Some(&UserId(0)));

    base.release(Some(&mut slot));
    assert_eq!(slot.context().get::<UserId>(), None);
}

#[test]
fn nested_guards_released_in_creation_order_restore_their_own_record() {
    let mut slot = Slot::new();
    let mut base = Context::new()
        .with_property(UserId(0))
        .bind(Some(&mut slot));
    let mut outer = Context::new()
        .with_property(UserId(1))
        .bind(Some(&mut slot));
    let mut inner = Context::new()
        .with_property(UserId(2))
        .bind(Some(&mut slot));

    // The outer guard recorded the baseline; the inner binding is discarded.
    outer.release(Some(&mut slot));
    assert_eq!(slot.context().get::<UserId>(), Some(&UserId(0)));

    // The inner guard recorded the outer context and brings it back.
    inner.release(Some(&mut slot));
    assert_eq!(slot.context().get::<UserId>(), Some(&UserId(1)));

    base.release(Some(&mut slot));
    assert_eq!(slot.context().get::<UserId>(), None);
}

#[test]
fn releasing_twice_does_nothing_the_second_time() {
    let mut slot = Slot::new();
    let mut guard = Context::new()
        .with_property(UserId(1))
        .bind(Some(&mut slot));
    guard.release(Some(&mut slot));
    assert_eq!(slot.context().get::<UserId>(), None);

    let mut later = Context::new()
        .with_property(UserId(2))
        .bind(Some(&mut slot));
    guard.release(Some(&mut slot));
    assert_eq!(slot.context().get::<UserId>(), Some(&UserId(2)));

    later.release(Some(&mut slot));
    assert_eq!(slot.context().get::<UserId>(), None);
}

#[test]
fn binding_without_a_slot_records_nothing() {
    let mut guard = Context::new().with_property(UserId(1)).bind(None);
    assert!(guard.previous_context().is_none());

    let mut slot = Slot::new();
    let mut held = Context::new()
        .with_property(UserId(2))
        .bind(Some(&mut slot));
    guard.release(Some(&mut slot));
    assert_eq!(slot.context().get::<UserId>(), Some(&UserId(2)));
    held.release(Some(&mut slot));
}

#[test]
fn releasing_without_a_slot_drops_the_record() {
    let mut slot = Slot::new();
    let mut guard = Context::new()
        .with_property(UserId(1))
        .bind(Some(&mut slot));
    assert!(guard.previous_context().is_some());

    guard.release(None);
    assert!(guard.previous_context().is_none());
    assert_eq!(slot.context().get::<UserId>(), Some(&UserId(1)));

    guard.release(Some(&mut slot));
    assert_eq!(slot.context().get::<UserId>(), Some(&UserId(1)));
}

#[test]
fn slots_do_not_see_each_other() {
    let mut here = Slot::new();
    let mut there = Slot::new();

    let mut guard_here = Context::new()
        .with_property(UserId(1))
        .bind(Some(&mut here));
    assert_eq!(Context::current(Some(&here)).get::<UserId>(), Some(&UserId(1)));
    assert_eq!(Context::current(Some(&there)).get::<UserId>(), None);

    let mut guard_there = Context::new()
        .with_property(UserId(2))
        .bind(Some(&mut there));
    assert_eq!(Context::current(Some(&here)).get::<UserId>(), Some(&UserId(1)));
    assert_eq!(Context::current(Some(&there)).get::<UserId>(), Some(&UserId(2)));

    guard_here.release(Some(&mut here));
    assert_eq!(Context::current(Some(&here)).get::<UserId>(), None);
    assert_eq!(Context::current(Some(&there)).get::<UserId>(), Some(&UserId(2)));

    guard_there.release(Some(&mut there));
    assert_eq!(Context::current(Some(&there)).get::<UserId>(), None);
}

#[test]
fn current_is_a_snapshot() {
    let mut slot = Slot::new();
    let mut guard = Context::new()
        .with_property(UserId(1))
        .bind(Some(&mut slot));
    let snapshot = Context::current(Some(&slot));
    guard.release(Some(&mut slot));
    assert_eq!(snapshot.get::<UserId>(), Some(&UserId(1)));
    assert_eq!(Context::current(Some(&slot)).get::<UserId>(), None);
}

#[test]
fn slot_replace_hands_back_what_it_held() {
    let mut slot = Slot::new();
    let empty = slot.replace(Context::new().with_property(UserId(3)));
    assert_eq!(empty.len(), 0);
    assert_eq!(slot.context().get::<UserId>(), Some(&UserId(3)));
    let previous = slot.replace(Context::new());
    assert_eq!(previous.get::<UserId>(), Some(&UserId(3)));
    assert_eq!(slot.context().len(), 0);
}

#[test]
fn closure_runs_on_the_current_context() {
    let mut slot = Slot::new();
    let mut guard = Context::new()
        .with_property(UserId(8))
        .with_property(RequestId(1))
        .bind(Some(&mut slot));
    let count = get_current_context(Some(&slot), |context: &Context| context.len());
    assert_eq!(count, 2);
    let user = get_current_context(Some(&slot), |context: &Context| {
        context.get::<UserId>().map(|user| user.0)
    });
    assert_eq!(user, Some(8));
    guard.release(Some(&mut slot));
    let count = get_current_context(Some(&slot), |context: &Context| context.len());
    assert_eq!(count, 0);
}

#[test]
fn closure_runs_on_the_empty_context_without_a_slot() {
    let count = get_current_context(None, |context: &Context| context.len());
    assert_eq!(count, 0);
    let user = get_current_context(None, |context: &Context| {
        context.get::<UserId>().map(|user| user.0)
    });
    assert_eq!(user, None);
}

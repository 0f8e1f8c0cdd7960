use std::time::Duration;

use quartzite::align_up;
use quartzite::application::{invoke_method, AppMethod, AppRegistry, ApplicationBuilder, ApplicationError, TreeAccessError};
use quartzite::connection_table::ConnectionTable;
use quartzite::event_loop::{tick_policy, LoopControl, LoopStep, WaitOutcome};
use quartzite::factory::{FactoryAlreadySet, ObjectFactory};
use quartzite::global_tree::{deregister, is_live, register, TreeLiveness};
use quartzite::ids::{ConnectionId, ObjectId};
use quartzite::loop_registry::{LoopAlreadyInstalled, LoopRegistry};
use quartzite::object_tree::{ObjectBase, ObjectTree};
use quartzite::timer::{FireOutcome, Timer, TimerConfig, TimerEvent};
use quartzite::timer_drivers::{DriverTicker, PoolSchedule, PoolStep};

// ── application builder and singleton ───────────────────────────────────────

#[test]
fn default_equals_new() {
    let via_default = ApplicationBuilder::default();
    let via_new = ApplicationBuilder::new();
    assert_eq!(via_default.tick(), via_new.tick());
}

#[test]
fn builder_tick_duration_keeps_nonzero_tick() {
    let b = ApplicationBuilder::new().tick_duration(Some(Duration::from_millis(50)));
    assert_eq!(b.tick(), Some(Duration::from_millis(50)));
}

#[test]
fn builder_tick_duration_zero_is_tickless() {
    let b = ApplicationBuilder::new().tick_duration(Some(Duration::ZERO));
    assert_eq!(b.tick(), None);
}

#[test]
fn application_singleton_enforced() {
    let mut reg = AppRegistry::new();
    assert_eq!(reg.build(), Ok(()));
    assert_eq!(reg.build(), Err(ApplicationError::AlreadyExists));
}

#[test]
fn second_build_fails_even_after_drop() {
    let mut reg = AppRegistry::new();
    assert_eq!(reg.build(), Ok(()));
    reg.drop_application();
    assert_eq!(reg.build(), Err(ApplicationError::AlreadyExists));
}

#[test]
fn try_with_tree_requires_live_application() {
    let mut reg = AppRegistry::new();
    let mut tree = ObjectTree::new();
    tree.insert(ObjectBase::new(ObjectId(1)), None);
    assert_eq!(reg.try_with_tree(&tree, |t: &ObjectTree| t.contains(ObjectId(1))), Err(TreeAccessError));
    reg.build().unwrap();
    assert_eq!(reg.try_with_tree(&tree, |t: &ObjectTree| t.contains(ObjectId(1))), Ok(true));
    reg.drop_application();
    assert_eq!(reg.try_with_tree(&tree, |t: &ObjectTree| t.contains(ObjectId(1))), Err(TreeAccessError));
}

#[test]
fn error_messages() {
    assert_eq!(ApplicationError::AlreadyExists.message(), "Application already exists");
    assert_eq!(TreeAccessError.message(), "no Application is currently live");
    assert_eq!(FactoryAlreadySet.message(), "ObjectFactory is already installed");
    assert_eq!(LoopAlreadyInstalled.message(), "an EventLoop is already installed for this thread");
}

// ── global tree liveness ────────────────────────────────────────────────────

#[test]
fn is_live_returns_false_when_not_registered() {
    let flag = TreeLiveness::new();
    assert!(!is_live(&flag));
}

#[test]
fn register_then_deregister_toggles_liveness() {
    let mut flag = TreeLiveness::new();
    register(&mut flag);
    assert!(is_live(&flag));
    deregister(&mut flag);
    assert!(!is_live(&flag));
}

// ── event loop control ──────────────────────────────────────────────────────

#[test]
fn new_is_tickless() {
    let el = LoopControl::new();
    assert_eq!(el.tick(), None);
}

#[test]
fn with_tick_some_stores_duration() {
    let el = LoopControl::with_tick(Some(Duration::from_millis(50)));
    assert_eq!(el.tick(), Some(Duration::from_millis(50)));
}

#[test]
fn with_tick_zero_normalises_to_none() {
    let el = LoopControl::with_tick(Some(Duration::ZERO));
    assert_eq!(el.tick(), None);
}

#[test]
fn default_is_tickless() {
    let el = LoopControl::default();
    assert_eq!(el.tick(), None);
}

#[test]
fn tick_policy_normalises_only_zero() {
    assert_eq!(tick_policy(None), None);
    assert_eq!(tick_policy(Some(Duration::ZERO)), None);
    assert_eq!(tick_policy(Some(Duration::from_nanos(1))), Some(Duration::from_nanos(1)));
}

#[test]
fn stop_before_run_exits_immediately() {
    let mut el = LoopControl::new();
    el.request_stop();
    el.begin_run();
    assert!(el.is_running());
    assert!(!el.should_continue());
    el.end_run();
    assert!(!el.is_running());
}

#[test]
fn loop_continues_until_disconnected() {
    let mut el = LoopControl::with_tick(Some(Duration::from_millis(10)));
    el.begin_run();
    assert!(el.should_continue());
    assert_eq!(el.after_wait(WaitOutcome::Message), LoopStep::Continue);
    assert_eq!(el.after_wait(WaitOutcome::Timeout), LoopStep::Continue);
    assert_eq!(el.after_wait(WaitOutcome::Disconnected), LoopStep::Exit);
}

// ── connection table ────────────────────────────────────────────────────────

#[test]
fn register_and_remove() {
    let mut table = ConnectionTable::new();
    let sender = ObjectId(1);
    let receiver = ObjectId(2);

    let id = table.register(sender, 0, receiver);

    assert!(table.receivers_for_signal(sender, 0).contains(&id));
    table.remove(id);
    assert!(!table.receivers_for_signal(sender, 0).contains(&id));
}

#[test]
fn remove_by_receiver_cleans_up() {
    let mut table = ConnectionTable::new();
    let sender = ObjectId(1);
    let receiver = ObjectId(2);

    table.register(sender, 0, receiver);

    table.remove_by_receiver(receiver);
    assert!(table.receivers_for_signal(sender, 0).is_empty());
}

#[test]
fn connection_ids_start_at_one_and_increase() {
    let mut table = ConnectionTable::new();
    let a = table.register(ObjectId(1), 0, ObjectId(2));
    let b = table.register(ObjectId(1), 0, ObjectId(3));
    assert_eq!(a, ConnectionId(1));
    assert_eq!(b, ConnectionId(2));
    assert_eq!(table.receivers_for_signal(ObjectId(1), 0), vec![a, b]);
}

#[test]
fn remove_by_receiver_keeps_other_receivers() {
    let mut table = ConnectionTable::new();
    let a = table.register(ObjectId(1), 0, ObjectId(2));
    let b = table.register(ObjectId(1), 0, ObjectId(3));
    let c = table.register(ObjectId(1), 1, ObjectId(2));
    table.remove_by_receiver(ObjectId(2));
    assert_eq!(table.receivers_for_signal(ObjectId(1), 0), vec![b]);
    assert!(table.receivers_for_signal(ObjectId(1), 1).is_empty());
    assert_ne!(a, c);
}

#[test]
fn signals_are_keyed_by_sender_and_index() {
    let mut table = ConnectionTable::new();
    let a = table.register(ObjectId(1), 0, ObjectId(9));
    let b = table.register(ObjectId(1), 1, ObjectId(9));
    let c = table.register(ObjectId(2), 0, ObjectId(9));
    assert_eq!(table.receivers_for_signal(ObjectId(1), 0), vec![a]);
    assert_eq!(table.receivers_for_signal(ObjectId(1), 1), vec![b]);
    assert_eq!(table.receivers_for_signal(ObjectId(2), 0), vec![c]);
}

#[test]
fn remove_unknown_connection_is_noop() {
    let mut table = ConnectionTable::new();
    let a = table.register(ObjectId(1), 0, ObjectId(2));
    table.remove(ConnectionId(77));
    assert_eq!(table.receivers_for_signal(ObjectId(1), 0), vec![a]);
}

// ── loop registry ───────────────────────────────────────────────────────────

#[test]
fn install_and_get() {
    let mut reg: LoopRegistry<u32> = LoopRegistry::new();
    reg.install(1, 10).unwrap();
    assert!(reg.get(1).is_some());
    reg.uninstall(1);
}

#[test]
fn double_install_returns_error() {
    let mut reg: LoopRegistry<u32> = LoopRegistry::new();
    reg.install(1, 10).unwrap();
    assert_eq!(reg.install(1, 11), Err(LoopAlreadyInstalled));
    assert_eq!(reg.get(1), Some(&10));
    reg.uninstall(1);
}

#[test]
fn uninstall_removes_entry() {
    let mut reg: LoopRegistry<u32> = LoopRegistry::new();
    reg.install(1, 10).unwrap();
    reg.uninstall(1);
    assert!(reg.get(1).is_none());
}

#[test]
fn uninstall_noop_when_absent() {
    let mut reg: LoopRegistry<u32> = LoopRegistry::new();
    reg.uninstall(5);
    assert!(reg.get(5).is_none());
}

#[test]
fn thread_b_cannot_see_thread_a_entry() {
    let mut reg: LoopRegistry<u32> = LoopRegistry::new();
    reg.install(1, 10).unwrap();
    assert!(reg.get(2).is_none());
    reg.uninstall(1);
}

// ── object factory ──────────────────────────────────────────────────────────

fn make_test_obj() -> u32 {
    7
}

fn make_other_obj() -> u32 {
    8
}

#[test]
fn factory_registered_class_creates_instance() {
    let mut factory: ObjectFactory<fn() -> u32> = ObjectFactory::new();
    factory.register("TestObj".to_string(), make_test_obj);
    assert!(factory.create("TestObj").is_some());
}

#[test]
fn factory_unregistered_class_returns_none() {
    let factory: ObjectFactory<fn() -> u32> = ObjectFactory::new();
    assert!(factory.create("Unknown").is_none());
}

#[test]
fn factory_duplicate_registration_overwrites() {
    let mut factory: ObjectFactory<fn() -> u32> = ObjectFactory::new();
    factory.register("TestObj".to_string(), make_test_obj);
    factory.register("TestObj".to_string(), make_other_obj);
    assert_eq!(factory.create("TestObj"), Some(8));
}

#[test]
fn multiple_classes_independent() {
    let mut factory: ObjectFactory<fn() -> u32> = ObjectFactory::new();
    factory.register("A".to_string(), make_test_obj);
    factory.register("B".to_string(), make_other_obj);
    assert_eq!(factory.create("A"), Some(7));
    assert_eq!(factory.create("B"), Some(8));
    assert!(factory.create("C").is_none());
}

// ── timer ───────────────────────────────────────────────────────────────────

#[test]
fn timer_new_not_running() {
    let t = Timer::new(ObjectId(1), Duration::from_millis(50));
    assert!(!t.is_running());
}

#[test]
fn timer_named_sets_name() {
    let timer = Timer::named(ObjectId(1), "my-timer".to_string(), Duration::from_millis(100));
    assert_eq!(timer.base.name(), Some("my-timer"));
}

#[test]
fn timer_stop_when_not_running_is_noop() {
    let mut timer = Timer::new(ObjectId(1), Duration::from_millis(50));
    assert!(!timer.stop());
    assert!(!timer.is_running());
}

#[test]
fn emit_tick_suppressed_when_blocked() {
    let mut timer = Timer::new(ObjectId(1), Duration::from_millis(50));
    timer.block_signals();
    assert_eq!(timer.emit_tick(TimerEvent::new(timer.base.id(), 0)), None);
}

#[test]
fn emit_tick_fires_when_unblocked() {
    let timer = Timer::new(ObjectId(1), Duration::from_millis(50));
    let delivered = timer.emit_tick(TimerEvent::new(timer.base.id(), 7));
    assert_eq!(delivered.map(|e| e.fire_count()), Some(7));
}

#[test]
fn block_unblock_restores_emission() {
    let mut timer = Timer::new(ObjectId(1), Duration::from_millis(50));
    timer.block_signals();
    assert!(timer.signals_blocked());
    assert_eq!(timer.emit_tick(TimerEvent::new(timer.base.id(), 0)), None);
    timer.unblock_signals();
    assert!(!timer.signals_blocked());
    assert!(timer.emit_tick(TimerEvent::new(timer.base.id(), 1)).is_some());
}

#[test]
fn timer_config_fields() {
    let id = ObjectId(3);
    let cfg = TimerConfig { timer_id: id, interval: Duration::from_millis(200), single_shot: true };
    assert_eq!(cfg.timer_id, id);
    assert_eq!(cfg.interval, Duration::from_millis(200));
    assert!(cfg.single_shot);
}

#[test]
fn timer_start_hands_out_config_once() {
    let mut timer = Timer::new(ObjectId(4), Duration::from_millis(25));
    timer.single_shot = true;
    let cfg = timer.start().expect("first start configures the driver");
    assert_eq!(cfg.timer_id, ObjectId(4));
    assert_eq!(cfg.interval, Duration::from_millis(25));
    assert!(cfg.single_shot);
    assert!(timer.is_running());
    assert!(timer.start().is_none());
}

#[test]
fn single_shot_timer_fires_exactly_once() {
    let mut timer = Timer::new(ObjectId(5), Duration::from_millis(10));
    timer.single_shot = true;
    timer.start();
    assert_eq!(timer.on_fire(), FireOutcome::Emit(TimerEvent::new(ObjectId(5), 0)));
    assert!(!timer.is_running());
    assert_eq!(timer.on_fire(), FireOutcome::Inactive);
}

#[test]
fn repeating_timer_counts_fires() {
    let mut timer = Timer::new(ObjectId(6), Duration::from_millis(10));
    timer.start();
    assert_eq!(timer.on_fire(), FireOutcome::Emit(TimerEvent::new(ObjectId(6), 0)));
    assert_eq!(timer.on_fire(), FireOutcome::Emit(TimerEvent::new(ObjectId(6), 1)));
    assert!(timer.is_running());
    assert!(timer.stop());
    assert_eq!(timer.on_fire(), FireOutcome::Inactive);
}

#[test]
fn blocked_timer_fire_is_suppressed_but_counted() {
    let mut timer = Timer::new(ObjectId(7), Duration::from_millis(10));
    timer.start();
    timer.block_signals();
    assert_eq!(timer.on_fire(), FireOutcome::Suppressed);
    timer.unblock_signals();
    assert_eq!(timer.on_fire(), FireOutcome::Emit(TimerEvent::new(ObjectId(7), 1)));
}

#[test]
fn restart_resets_fire_count() {
    let mut timer = Timer::new(ObjectId(8), Duration::from_millis(10));
    timer.start();
    timer.on_fire();
    timer.on_fire();
    timer.stop();
    timer.start();
    assert_eq!(timer.on_fire(), FireOutcome::Emit(TimerEvent::new(ObjectId(8), 0)));
}

// ── timer drivers ───────────────────────────────────────────────────────────

#[test]
fn thread_driver_new_is_idle() {
    let mut d = DriverTicker::new();
    assert!(!d.on_wake());
}

#[test]
fn driver_ticker_single_shot_wakes_once() {
    let mut d = DriverTicker::new();
    d.start(true);
    assert!(d.on_wake());
    assert!(!d.on_wake());
}

#[test]
fn driver_ticker_repeating_until_stopped() {
    let mut d = DriverTicker::new();
    d.start(false);
    assert!(d.on_wake());
    assert!(d.on_wake());
    d.stop();
    assert!(!d.on_wake());
}

#[test]
fn pool_schedule_empty_is_idle() {
    let mut p = PoolSchedule::new();
    assert_eq!(p.step(0), PoolStep::Idle);
}

#[test]
fn pool_schedule_waits_until_deadline() {
    let mut p = PoolSchedule::new();
    p.start(ObjectId(1), 100, 50, false);
    assert_eq!(p.step(120), PoolStep::WaitFor(30));
    assert_eq!(p.step(150), PoolStep::Fire(ObjectId(1)));
    assert_eq!(p.step(160), PoolStep::WaitFor(40));
}

#[test]
fn pool_schedule_shared_across_two_timers() {
    let mut p = PoolSchedule::new();
    p.start(ObjectId(1), 0, 30, false);
    p.start(ObjectId(2), 0, 20, false);
    assert_eq!(p.step(20), PoolStep::Fire(ObjectId(2)));
    assert_eq!(p.step(30), PoolStep::Fire(ObjectId(1)));
    assert_eq!(p.step(40), PoolStep::Fire(ObjectId(2)));
}

#[test]
fn pool_schedule_single_shot_fires_once() {
    let mut p = PoolSchedule::new();
    p.start(ObjectId(3), 0, 10, true);
    assert_eq!(p.step(10), PoolStep::Fire(ObjectId(3)));
    assert_eq!(p.step(100), PoolStep::Idle);
}

#[test]
fn pool_schedule_stop_prevents_further_fires() {
    let mut p = PoolSchedule::new();
    p.start(ObjectId(4), 0, 10, false);
    assert_eq!(p.step(10), PoolStep::Fire(ObjectId(4)));
    p.stop(ObjectId(4));
    assert_eq!(p.step(20), PoolStep::Skip(ObjectId(4)));
    assert_eq!(p.step(30), PoolStep::Idle);
}

#[test]
fn pool_schedule_ties_broken_by_id() {
    let mut p = PoolSchedule::new();
    p.start(ObjectId(9), 0, 10, true);
    p.start(ObjectId(2), 0, 10, true);
    assert_eq!(p.step(10), PoolStep::Fire(ObjectId(2)));
    assert_eq!(p.step(10), PoolStep::Fire(ObjectId(9)));
}

// ── arithmetic ──────────────────────────────────────────────────────────────

#[test]
fn align_up_exact_values() {
    assert_eq!(align_up(0, 256), 0);
    assert_eq!(align_up(1, 256), 256);
    assert_eq!(align_up(256, 256), 256);
    assert_eq!(align_up(257, 256), 512);
    assert_eq!(align_up(7, 1), 7);
    assert_eq!(align_up(10, 4), 12);
}

// ── parent / children accessors ─────────────────────────────────────────────

#[test]
fn parent_children_accessors_all_acs() {
    let mut app = AppRegistry::new();
    let mut tree = ObjectTree::new();
    assert!(app.try_with_tree(&tree, |_t: &ObjectTree| ()).is_err());

    app.build().expect("first build succeeds");
    assert!(app.try_with_tree(&tree, |_t: &ObjectTree| ()).is_ok());

    let root_id = tree.insert(ObjectBase::named(ObjectId(1), "root".to_string()), None);
    let child_a_id = tree.insert(ObjectBase::named(ObjectId(2), "child_a".to_string()), Some(root_id));
    let child_b_id = tree.insert(ObjectBase::named(ObjectId(3), "child_b".to_string()), Some(root_id));
    let grandchild_id = tree.insert(ObjectBase::named(ObjectId(4), "grandchild".to_string()), Some(child_a_id));

    let root_q = ObjectBase::new(root_id);
    let child_a_q = ObjectBase::new(child_a_id);
    let child_b_q = ObjectBase::new(child_b_id);
    let grandchild_q = ObjectBase::new(grandchild_id);

    assert_eq!(root_q.parent(&app, &tree).unwrap(), None);
    assert_eq!(child_a_q.parent(&app, &tree).unwrap(), Some(root_id));
    assert_eq!(grandchild_q.parent(&app, &tree).unwrap(), Some(child_a_id));
    assert_eq!(root_q.children(&app, &tree).unwrap(), vec![child_a_id, child_b_id]);
    assert_eq!(grandchild_q.children(&app, &tree).unwrap(), vec![]);

    let parent_b_global = child_b_q.parent(&app, &tree).unwrap();
    let children_root_global = root_q.children(&app, &tree).unwrap();
    assert_eq!(child_b_q.parent_in(&tree), parent_b_global);
    assert_eq!(root_q.children_in(&tree), children_root_global.as_slice());

    app.drop_application();
    assert!(root_q.parent(&app, &tree).is_err());
    assert!(root_q.children(&app, &tree).is_err());
    assert!(app.try_with_tree(&tree, |_t: &ObjectTree| ()).is_err());
}

#[test]
fn pool_schedule_deadline_saturates_at_clock_end() {
    let mut p = PoolSchedule::new();
    p.start(ObjectId(1), u64::MAX - 5, 10, false);
    assert_eq!(p.step(u64::MAX - 5), PoolStep::WaitFor(5));
    assert_eq!(p.step(u64::MAX), PoolStep::Fire(ObjectId(1)));
    assert_eq!(p.step(u64::MAX), PoolStep::Fire(ObjectId(1)));
}

#[test]
fn fresh_table_has_free_ids() {
    let table = ConnectionTable::new();
    assert!(table.has_free_id());
}

#[test]
fn invoke_method_knows_only_quit_without_arguments() {
    assert_eq!(invoke_method("quit", 0), Some(AppMethod::Quit));
    assert_eq!(invoke_method("quit", 1), None);
    assert_eq!(invoke_method("stop", 0), None);
    assert_eq!(invoke_method("", 0), None);
}

#[test]
fn quartzite_application_new_succeeds() {
    let mut reg = AppRegistry::new();
    let result = reg.build();
    assert!(result.is_ok() || result == Err(ApplicationError::AlreadyExists));
}

#[test]
fn windowed_application_builder_returns_already_exists_on_second_call() {
    let mut reg = AppRegistry::new();
    assert!(reg.build().is_ok());
    assert_eq!(reg.build(), Err(ApplicationError::AlreadyExists));
}

#[test]
fn timer_object_tree_insert_and_retrieve() {
    let mut tree = ObjectTree::new();
    let timer = Timer::named(ObjectId(21), "heartbeat".to_string(), Duration::from_millis(100));
    let id = timer.base.id();
    let inserted_id = tree.insert(timer.base, None);
    assert_eq!(inserted_id, id);
    assert!(tree.contains(id));
    assert_eq!(tree.find_by_name("heartbeat"), &[id][..]);
}

#[test]
fn timer_object_tree_downcast() {
    let mut tree = ObjectTree::new();
    let timer = Timer::named(ObjectId(22), "t".to_string(), Duration::from_millis(50));
    let id = tree.insert(timer.base, None);
    let name = tree.with(id, |obj: &ObjectBase| obj.name().map(|s| s.to_owned())).flatten();
    assert_eq!(name, Some("t".to_owned()));
}

#[test]
fn register_then_remove_restores_signal_list() {
    let mut table = ConnectionTable::new();
    let a = table.register(ObjectId(1), 0, ObjectId(2));
    let before = table.receivers_for_signal(ObjectId(1), 0);
    let b = table.register(ObjectId(1), 0, ObjectId(3));
    table.remove(b);
    assert_eq!(table.receivers_for_signal(ObjectId(1), 0), before);
    assert_eq!(before, vec![a]);
}

#[test]
fn remove_by_receiver_unlists_from_every_signal() {
    let mut table = ConnectionTable::new();
    let a = table.register(ObjectId(1), 0, ObjectId(9));
    let b = table.register(ObjectId(2), 3, ObjectId(9));
    let c = table.register(ObjectId(2), 3, ObjectId(4));
    table.remove_by_receiver(ObjectId(9));
    assert!(!table.receivers_for_signal(ObjectId(1), 0).contains(&a));
    assert_eq!(table.receivers_for_signal(ObjectId(2), 3), vec![c]);
    assert_ne!(b, c);
}

#[test]
fn repeating_timer_emits_counts_in_order() {
    let mut timer = Timer::new(ObjectId(30), Duration::from_millis(10));
    timer.start();
    for k in 0..5usize {
        assert_eq!(timer.on_fire(), FireOutcome::Emit(TimerEvent::new(ObjectId(30), k)));
    }
}

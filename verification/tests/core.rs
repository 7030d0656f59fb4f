use homectl_core::action::{Action, CustomActionDescriptor, CycleScenesDescriptor,
    ForceTriggerRoutineDescriptor, SceneDescriptor};
use homectl_core::device::{device_eq, find_device, states_equal, Device, DeviceColor, DeviceId,
    DeviceKey, DeviceState, DevicesState, Hsv, IntegrationId, Light, SensorDevice};
use homectl_core::devices_manager::DevicesManager;
use homectl_core::dim::{color_config_as_device_color, dim_brightness, dim_device, ColorConfig,
    DimDescriptor, Rgb};
use homectl_core::group::{GroupConfig, GroupDeviceKeys, GroupId, Groups, GroupsError};
use homectl_core::hue::{to_light, BridgeLight, BridgeLightState};
use homectl_core::kvmap::KvMap;
use homectl_core::message::{handle_message, CoreState, DispatchError, Effect, Message};
use homectl_core::rule::{AnyRule, DeviceRule, EvalContext, GroupRule, Routine, RoutineId,
    RoutinesConfig, Rule, SensorRule};
use homectl_core::rules::{get_routine_eval_failures, get_triggered_routine_ids,
    is_routine_triggered, is_rule_triggered, EvalError, Rules};
use homectl_core::scene::{SceneConfig, SceneDeviceState, SceneId, Scenes};
use homectl_core::supervisor::{Supervisor, SupervisorError};
use homectl_core::random::{mk_random_device, random_brightness_range};
use homectl_core::tuya::{default_device, register_device, to_tuya_state, tuya_device_from_poll};

fn key(integration: &str, device: &str) -> DeviceKey {
    DeviceKey::new(
        IntegrationId::new(integration.to_string()),
        DeviceId::new(device.to_string()),
    )
}

fn motion_sensor(id: &str, value: bool) -> Device {
    Device {
        id: DeviceId::new(id.to_string()),
        name: id.to_string(),
        integration_id: IntegrationId::new("test".to_string()),
        scene: None,
        state: DeviceState::Sensor(SensorDevice::Boolean { value }),
    }
}

fn lamp(id: &str, power: bool, brightness: Option<u16>) -> Device {
    Device {
        id: DeviceId::new(id.to_string()),
        name: id.to_string(),
        integration_id: IntegrationId::new("test".to_string()),
        scene: None,
        state: DeviceState::Light(Light::new(power, brightness, None, None)),
    }
}

fn state_of(devices: Vec<Device>) -> DevicesState {
    let mut state: DevicesState = KvMap::new();
    for d in devices {
        let k = d.get_device_key();
        state.insert(k, d);
    }
    state
}

fn no_groups() -> Groups {
    Groups::new(KvMap::new())
}

fn no_ctx() -> EvalContext {
    KvMap::new()
}

fn sensor_rule(id: &str, value: bool) -> Rule {
    Rule::Sensor(SensorRule {
        device_ref: key("test", id),
        state: SensorDevice::Boolean { value },
    })
}

fn lamp_power_rule(id: &str, power: bool) -> Rule {
    Rule::Device(DeviceRule { device_ref: key("test", id), scene: None, power: Some(power) })
}

fn routine(id: &str, rules: Vec<Rule>, actions: Vec<Action>) -> Routine {
    Routine { id: RoutineId::new(id.to_string()), name: id.to_string(), rules, actions }
}

#[test]
fn recv_device_state_is_idempotent() {
    let mut manager = DevicesManager::new();
    let first = manager.handle_recv_device_state(motion_sensor("m1", true));
    assert!(first.is_some());
    let update = first.unwrap();
    assert!(update.old.is_none());
    assert!(device_eq(&update.new, &motion_sensor("m1", true)));
    let second = manager.handle_recv_device_state(motion_sensor("m1", true));
    assert!(second.is_none());
    let third = manager.handle_recv_device_state(motion_sensor("m1", false));
    assert!(third.is_some());
    let update = third.unwrap();
    assert!(update.old.is_some());
    assert!(device_eq(&update.old.unwrap(), &motion_sensor("m1", true)));
}

#[test]
fn equal_states_match_no_actions() {
    let rules = Rules::new(
        RoutinesConfig {
            routines: vec![
                routine(
                    "r1",
                    vec![sensor_rule("m1", true)],
                    vec![Action::SetDeviceState(lamp("l1", true, None))],
                ),
            ],
        },
        no_groups(),
    );
    let s = state_of(vec![motion_sensor("m1", true)]);
    let s2 = state_of(vec![motion_sensor("m1", true)]);
    assert!(states_equal(&s, &s2));
    let actions = rules.find_matching_actions(&s, &s2, &no_ctx(), &no_ctx());
    assert_eq!(actions.len(), 0);
}

#[test]
fn routine_fires_only_on_the_edge() {
    let rules = Rules::new(
        RoutinesConfig {
            routines: vec![
                routine(
                    "r1",
                    vec![sensor_rule("m1", true)],
                    vec![Action::SetDeviceState(lamp("l1", true, None))],
                ),
            ],
        },
        no_groups(),
    );
    // Rules become true at s1 and remain true at s2; s2 differs from s1
    // only in an unrelated device.
    let s0 = state_of(vec![motion_sensor("m1", false), lamp("l1", false, None)]);
    let s1 = state_of(vec![motion_sensor("m1", true), lamp("l1", false, None)]);
    let s2 = state_of(vec![motion_sensor("m1", true), lamp("l1", true, None)]);
    let on_edge = rules.find_matching_actions(&s0, &s1, &no_ctx(), &no_ctx());
    assert_eq!(on_edge.len(), 1);
    let still_true = rules.find_matching_actions(&s1, &s2, &no_ctx(), &no_ctx());
    assert_eq!(still_true.len(), 0);
    let on_exit = rules.find_matching_actions(&s1, &s0, &no_ctx(), &no_ctx());
    assert_eq!(on_exit.len(), 0);
}

#[test]
fn routine_rules_are_and_ed() {
    let groups = no_groups();
    let ctx = no_ctx();
    let both = routine("r", vec![sensor_rule("m1", true), lamp_power_rule("l1", false)], vec![]);
    let s_both = state_of(vec![motion_sensor("m1", true), lamp("l1", false, None)]);
    let s_first = state_of(vec![motion_sensor("m1", true), lamp("l1", true, None)]);
    let s_second = state_of(vec![motion_sensor("m1", false), lamp("l1", false, None)]);
    let s_neither = state_of(vec![motion_sensor("m1", false), lamp("l1", true, None)]);
    assert!(is_routine_triggered(&s_both, &groups, &ctx, &both));
    assert!(!is_routine_triggered(&s_first, &groups, &ctx, &both));
    assert!(!is_routine_triggered(&s_second, &groups, &ctx, &both));
    assert!(!is_routine_triggered(&s_neither, &groups, &ctx, &both));
}

#[test]
fn empty_rule_list_never_triggers() {
    let groups = no_groups();
    let ctx = no_ctx();
    let empty = routine("r", vec![], vec![]);
    let s = state_of(vec![motion_sensor("m1", true)]);
    assert!(!is_routine_triggered(&s, &groups, &ctx, &empty));
}

#[test]
fn any_rule_is_or_ed() {
    let groups = no_groups();
    let ctx = no_ctx();
    let any = Rule::Any(AnyRule { any: vec![sensor_rule("m1", true), lamp_power_rule("l1", false)] });
    let s_first = state_of(vec![motion_sensor("m1", true), lamp("l1", true, None)]);
    let s_second = state_of(vec![motion_sensor("m1", false), lamp("l1", false, None)]);
    let s_neither = state_of(vec![motion_sensor("m1", false), lamp("l1", true, None)]);
    assert_eq!(is_rule_triggered(&s_first, &groups, &ctx, &any).unwrap(), true);
    assert_eq!(is_rule_triggered(&s_second, &groups, &ctx, &any).unwrap(), true);
    assert_eq!(is_rule_triggered(&s_neither, &groups, &ctx, &any).unwrap(), false);
}

#[test]
fn any_rule_swallows_sub_rule_failures() {
    let groups = no_groups();
    let ctx = no_ctx();
    // The first sub-rule references a missing device; the second is true.
    let any = Rule::Any(AnyRule { any: vec![sensor_rule("gone", true), sensor_rule("m1", true)] });
    let s = state_of(vec![motion_sensor("m1", true)]);
    assert_eq!(is_rule_triggered(&s, &groups, &ctx, &any).unwrap(), true);
}

#[test]
fn group_rule_with_missing_member_is_false_not_fatal() {
    let mut group_map: KvMap<GroupId, GroupDeviceKeys> = KvMap::new();
    group_map.insert(
        GroupId::new("lamps".to_string()),
        GroupDeviceKeys {
            keys: vec![key("test", "l1"), key("test", "missing"), key("test", "l2")],
        },
    );
    let groups = Groups::new(group_map);
    let ctx = no_ctx();
    let group_rule = Rule::Group(GroupRule {
        group_id: GroupId::new("lamps".to_string()),
        scene: None,
        power: Some(false),
    });
    let s = state_of(vec![
        motion_sensor("m1", true),
        lamp("l1", false, None),
        lamp("l2", false, None),
    ]);
    // One member of three is missing: the rule is false, not an error.
    assert_eq!(is_rule_triggered(&s, &groups, &ctx, &group_rule).unwrap(), false);
    // An unrelated routine in the same pass still evaluates normally.
    let rules = Rules::new(
        RoutinesConfig {
            routines: vec![
                routine("grouped", vec![group_rule], vec![Action::EvalExpr("a".to_string())]),
                routine(
                    "unrelated",
                    vec![sensor_rule("m1", true)],
                    vec![Action::EvalExpr("b".to_string())],
                ),
            ],
        },
        groups,
    );
    let s0 = state_of(vec![
        motion_sensor("m1", false),
        lamp("l1", false, None),
        lamp("l2", false, None),
    ]);
    let actions = rules.find_matching_actions(&s0, &s, &no_ctx(), &no_ctx());
    assert_eq!(actions.len(), 1);
    assert!(matches!(&actions[0], Action::EvalExpr(e) if e == "b"));
}

#[test]
fn group_rule_matches_when_all_members_match() {
    let mut group_map: KvMap<GroupId, GroupDeviceKeys> = KvMap::new();
    group_map.insert(
        GroupId::new("lamps".to_string()),
        GroupDeviceKeys { keys: vec![key("test", "l1"), key("test", "l2")] },
    );
    let groups = Groups::new(group_map);
    let ctx = no_ctx();
    let group_rule = Rule::Group(GroupRule {
        group_id: GroupId::new("lamps".to_string()),
        scene: None,
        power: Some(false),
    });
    let all_off = state_of(vec![lamp("l1", false, None), lamp("l2", false, None)]);
    let one_on = state_of(vec![lamp("l1", false, None), lamp("l2", true, None)]);
    assert_eq!(is_rule_triggered(&all_off, &groups, &ctx, &group_rule).unwrap(), true);
    assert_eq!(is_rule_triggered(&one_on, &groups, &ctx, &group_rule).unwrap(), false);
    // An unknown group resolves to no devices and never matches.
    let unknown = Rule::Group(GroupRule {
        group_id: GroupId::new("nope".to_string()),
        scene: None,
        power: Some(false),
    });
    assert_eq!(is_rule_triggered(&all_off, &groups, &ctx, &unknown).unwrap(), false);
}

#[test]
fn rule_errors_name_their_cause() {
    let groups = no_groups();
    let ctx = no_ctx();
    let missing = sensor_rule("gone", true);
    let s = state_of(vec![motion_sensor("m1", true), lamp("l1", false, None)]);
    assert!(matches!(
        is_rule_triggered(&s, &groups, &ctx, &missing),
        Err(EvalError::DeviceNotFound { .. })
    ));
    // A boolean sensor rule against a light is a kind mismatch.
    let mismatched = sensor_rule("l1", true);
    assert!(matches!(
        is_rule_triggered(&s, &groups, &ctx, &mismatched),
        Err(EvalError::SensorKindMismatch { .. })
    ));
    // An expression the evaluator gave no verdict for.
    let expr = Rule::EvalExpr("a > b".to_string());
    assert!(matches!(
        is_rule_triggered(&s, &groups, &ctx, &expr),
        Err(EvalError::ExprUnavailable { .. })
    ));
}

#[test]
fn eval_expr_rule_uses_the_evaluator_verdict() {
    let groups = no_groups();
    let mut ctx: EvalContext = KvMap::new();
    ctx.insert("a > b".to_string(), true);
    ctx.insert("b > a".to_string(), false);
    let s = state_of(vec![]);
    let yes = Rule::EvalExpr("a > b".to_string());
    let no = Rule::EvalExpr("b > a".to_string());
    assert_eq!(is_rule_triggered(&s, &groups, &ctx, &yes).unwrap(), true);
    assert_eq!(is_rule_triggered(&s, &groups, &ctx, &no).unwrap(), false);
}

#[test]
fn triggered_routine_ids_in_declaration_order() {
    let config = RoutinesConfig {
        routines: vec![
            routine("first", vec![sensor_rule("m1", true)], vec![]),
            routine("second", vec![sensor_rule("m1", false)], vec![]),
            routine("third", vec![lamp_power_rule("l1", false)], vec![]),
        ],
    };
    let s = state_of(vec![motion_sensor("m1", true), lamp("l1", false, None)]);
    let ids = get_triggered_routine_ids(&config, &no_groups(), &no_ctx(), &s);
    assert_eq!(ids.len(), 2);
    assert_eq!(ids[0].0, "first");
    assert_eq!(ids[1].0, "third");
}

#[test]
fn force_trigger_routine_returns_its_actions() {
    let rules = Rules::new(
        RoutinesConfig {
            routines: vec![
                routine(
                    "r1",
                    vec![sensor_rule("m1", true)],
                    vec![Action::EvalExpr("x".to_string()), Action::EvalExpr("y".to_string())],
                ),
            ],
        },
        no_groups(),
    );
    let actions = rules.force_trigger_routine(&RoutineId::new("r1".to_string())).unwrap();
    assert_eq!(actions.len(), 2);
    assert!(matches!(&actions[0], Action::EvalExpr(e) if e == "x"));
    assert!(matches!(&actions[1], Action::EvalExpr(e) if e == "y"));
    assert!(rules.force_trigger_routine(&RoutineId::new("nope".to_string())).is_err());
}

#[test]
fn motion_light_scenario() {
    // Sensor motion1 goes false -> true while lamp1 is off; the routine
    // turns lamp1 on, exactly once.
    let rules = Rules::new(
        RoutinesConfig {
            routines: vec![
                routine(
                    "motion-light",
                    vec![sensor_rule("motion1", true), lamp_power_rule("lamp1", false)],
                    vec![Action::SetDeviceState(lamp("lamp1", true, None))],
                ),
            ],
        },
        no_groups(),
    );
    let s0 = state_of(vec![motion_sensor("motion1", false), lamp("lamp1", false, None)]);
    let s1 = state_of(vec![motion_sensor("motion1", true), lamp("lamp1", false, None)]);
    let actions = rules.find_matching_actions(&s0, &s1, &no_ctx(), &no_ctx());
    assert_eq!(actions.len(), 1);
    match &actions[0] {
        Action::SetDeviceState(d) => assert!(device_eq(d, &lamp("lamp1", true, None))),
        _ => panic!("expected a set-device-state action"),
    }
    // Re-sending the same sensor value afterward changes nothing and
    // emits nothing.
    let mut manager = DevicesManager::new();
    manager.handle_recv_device_state(motion_sensor("motion1", true));
    assert!(manager.handle_recv_device_state(motion_sensor("motion1", true)).is_none());
    let resend = rules.find_matching_actions(&s1, &s1, &no_ctx(), &no_ctx());
    assert_eq!(resend.len(), 0);
}

#[test]
fn dim_steps_are_clamped_into_range() {
    assert_eq!(dim_brightness(500, -100), 400);
    assert_eq!(dim_brightness(50, -100), 0);
    assert_eq!(dim_brightness(950, 100), 1000);
    assert_eq!(dim_brightness(0, -100), 0);
    assert_eq!(dim_brightness(1000, 100), 1000);
    let dimmed = dim_device(lamp("l1", true, Some(500)), -100);
    match dimmed.state {
        DeviceState::Light(l) => assert_eq!(l.brightness, Some(400)),
        _ => panic!("expected a light"),
    }
    // A sensor is unaffected by a dim step.
    let sensor = dim_device(motion_sensor("m1", true), -100);
    assert!(device_eq(&sensor, &motion_sensor("m1", true)));
}

#[test]
fn reconciliation_keeps_one_live_worker() {
    let mut supervisor = Supervisor::new(vec![key("test", "l1"), key("test", "l2")]);
    let t1 = supervisor.set_integration_device_state(lamp("l1", true, Some(500))).unwrap();
    let t2 = supervisor.set_integration_device_state(lamp("l1", false, Some(200))).unwrap();
    // A fresh key's first worker starts at generation zero and each
    // replacement supersedes it.
    assert_eq!(t1.generation, 0);
    assert_eq!(t2.generation, 1);
    // The stale worker reads nothing and so pushes nothing.
    assert!(supervisor.worker_tick(&t1).is_none());
    // The live worker reads the latest expected state.
    let pushed = supervisor.worker_tick(&t2).expect("replacement worker is live");
    assert!(device_eq(&pushed, &lamp("l1", false, Some(200))));
    // Workers for other keys are untouched.
    let t3 = supervisor.set_integration_device_state(lamp("l2", true, None)).unwrap();
    assert!(supervisor.worker_tick(&t2).is_some());
    assert!(supervisor.worker_tick(&t3).is_some());
}

#[test]
fn unconfigured_devices_are_refused_not_panicked() {
    let mut supervisor = Supervisor::new(vec![key("test", "l1")]);
    let r = supervisor.set_integration_device_state(lamp("stranger", true, None));
    assert!(matches!(r, Err(SupervisorError::UnknownDevice)));
    // The refusal changes nothing: the configured device still starts
    // at generation zero.
    let t = supervisor.set_integration_device_state(lamp("l1", true, None)).unwrap();
    assert_eq!(t.generation, 0);
}

#[test]
fn set_device_state_keeps_scene_unless_stamped() {
    let mut manager = DevicesManager::new();
    let mut with_scene = lamp("l1", true, None);
    with_scene.scene = Some(SceneId::new("evening".to_string()));
    manager.set_device_state(&with_scene, true, false, true);
    // Without set_scene the stored record keeps its active scene.
    let update = lamp("l1", false, None);
    manager.set_device_state(&update, false, false, true);
    let stored = find_device(&manager.state, &key("test", "l1")).unwrap();
    assert!(matches!(&stored.scene, Some(s) if s.0 == "evening"));
    match stored.state {
        DeviceState::Light(l) => assert!(!l.power),
        _ => panic!("expected a light"),
    }
}

#[test]
fn set_device_state_send_rules() {
    let mut manager = DevicesManager::new();
    // A new record is sent unless skip_send is set.
    assert!(manager.set_device_state(&lamp("l1", true, None), false, false, true).is_none());
    // An unchanged record is short-circuited ...
    assert!(manager.set_device_state(&lamp("l1", true, None), false, false, false).is_none());
    // ... unless force bypasses the short-circuit.
    assert!(manager.set_device_state(&lamp("l1", true, None), false, true, false).is_some());
    // A changed record is sent.
    assert!(manager.set_device_state(&lamp("l1", false, None), false, false, false).is_some());
}

#[test]
fn dispatcher_announces_detected_changes() {
    let mut core = CoreState::new(
        Rules::new(RoutinesConfig { routines: vec![] }, no_groups()),
        Scenes::new(),
    );
    let (msgs, effects) = handle_message(
        &mut core,
        Message::DeviceRefresh { device: motion_sensor("m1", true) },
        &no_ctx(),
        &no_ctx(),
    ).unwrap();
    assert_eq!(effects.len(), 0);
    assert_eq!(msgs.len(), 1);
    match &msgs[0] {
        Message::InternalStateUpdate { old, new, .. } => {
            assert!(old.is_none());
            assert!(device_eq(new, &motion_sensor("m1", true)));
        },
        _ => panic!("expected an internal state update"),
    }
    // The same record again is a no-op.
    let (msgs, effects) = handle_message(
        &mut core,
        Message::DeviceRefresh { device: motion_sensor("m1", true) },
        &no_ctx(),
        &no_ctx(),
    ).unwrap();
    assert_eq!(msgs.len(), 0);
    assert_eq!(effects.len(), 0);
}

#[test]
fn dispatcher_runs_the_matching_pass_and_broadcasts() {
    let rules = Rules::new(
        RoutinesConfig {
            routines: vec![
                routine(
                    "motion-light",
                    vec![sensor_rule("motion1", true)],
                    vec![Action::SetDeviceState(lamp("lamp1", true, None))],
                ),
            ],
        },
        no_groups(),
    );
    let mut core = CoreState::new(rules, Scenes::new());
    let s0 = state_of(vec![motion_sensor("motion1", false)]);
    let s1 = state_of(vec![motion_sensor("motion1", true)]);
    let (msgs, effects) = handle_message(
        &mut core,
        Message::InternalStateUpdate {
            old_state: s0,
            new_state: s1,
            old: Some(motion_sensor("motion1", false)),
            new: motion_sensor("motion1", true),
        },
        &no_ctx(),
        &no_ctx(),
    ).unwrap();
    // With no groups or scenes configured, the invalidation step finds
    // nothing to recompute.
    assert_eq!(effects.len(), 1);
    match &effects[0] {
        Effect::IndexesInvalidated { groups, scenes } => {
            assert_eq!(groups.len(), 0);
            assert_eq!(scenes.len(), 0);
        },
        _ => panic!("expected the invalidation effect"),
    }
    assert_eq!(msgs.len(), 2);
    assert!(matches!(&msgs[0], Message::Action(Action::SetDeviceState(_))));
    assert!(matches!(&msgs[1], Message::BroadcastState));
    // A first observation (no previous record) fires nothing.
    let s0 = state_of(vec![]);
    let s1 = state_of(vec![motion_sensor("motion1", true)]);
    let (msgs, _) = handle_message(
        &mut core,
        Message::InternalStateUpdate {
            old_state: s0,
            new_state: s1,
            old: None,
            new: motion_sensor("motion1", true),
        },
        &no_ctx(),
        &no_ctx(),
    ).unwrap();
    assert_eq!(msgs.len(), 1);
    assert!(matches!(&msgs[0], Message::BroadcastState));
}

#[test]
fn dispatcher_names_the_invalidated_indices() {
    let mut group_map: KvMap<GroupId, GroupDeviceKeys> = KvMap::new();
    group_map.insert(
        GroupId::new("lamps".to_string()),
        GroupDeviceKeys { keys: vec![key("test", "l1")] },
    );
    let mut scenes = Scenes::new();
    let (id, config) = scene_with_lamp_on("evening", "l1");
    scenes.add_scene(id, config);
    let mut core = CoreState::new(
        Rules::new(RoutinesConfig { routines: vec![] }, Groups::new(group_map)),
        scenes,
    );
    let s0 = state_of(vec![lamp("l1", false, None)]);
    let s1 = state_of(vec![lamp("l1", true, None)]);
    let (_, effects) = handle_message(
        &mut core,
        Message::InternalStateUpdate {
            old_state: s0,
            new_state: s1,
            old: Some(lamp("l1", false, None)),
            new: lamp("l1", true, None),
        },
        &no_ctx(),
        &no_ctx(),
    ).unwrap();
    assert_eq!(effects.len(), 1);
    match &effects[0] {
        Effect::IndexesInvalidated { groups, scenes } => {
            assert_eq!(groups.len(), 1);
            assert_eq!(groups[0].0, "lamps");
            assert_eq!(scenes.len(), 1);
            assert_eq!(scenes[0].0, "evening");
        },
        _ => panic!("expected the invalidation effect"),
    }
    // A change to a device no index depends on invalidates nothing.
    let s0 = state_of(vec![motion_sensor("m1", false)]);
    let s1 = state_of(vec![motion_sensor("m1", true)]);
    let (_, effects) = handle_message(
        &mut core,
        Message::InternalStateUpdate {
            old_state: s0,
            new_state: s1,
            old: Some(motion_sensor("m1", false)),
            new: motion_sensor("m1", true),
        },
        &no_ctx(),
        &no_ctx(),
    ).unwrap();
    match &effects[0] {
        Effect::IndexesInvalidated { groups, scenes } => {
            assert_eq!(groups.len(), 0);
            assert_eq!(scenes.len(), 0);
        },
        _ => panic!("expected the invalidation effect"),
    }
}

#[test]
fn evaluation_failures_are_surfaced_for_logging() {
    let groups = no_groups();
    let ctx = no_ctx();
    let rt = routine(
        "r",
        vec![
            sensor_rule("gone", true),
            sensor_rule("m1", true),
            Rule::EvalExpr("a > b".to_string()),
        ],
        vec![],
    );
    let s = state_of(vec![motion_sensor("m1", true)]);
    let failures = get_routine_eval_failures(&s, &groups, &ctx, &rt);
    assert_eq!(failures.len(), 2);
    assert!(matches!(&failures[0], EvalError::DeviceNotFound { key } if key.device_id.0 == "gone"));
    assert!(matches!(&failures[1], EvalError::ExprUnavailable { expr } if expr == "a > b"));
    // A routine whose rules all evaluate cleanly reports nothing, even
    // when some rules are false.
    let clean = routine("r2", vec![sensor_rule("m1", false)], vec![]);
    assert_eq!(get_routine_eval_failures(&s, &groups, &ctx, &clean).len(), 0);
}

#[test]
fn dispatcher_routes_sends_and_db_work_to_effects() {
    let mut core = CoreState::new(
        Rules::new(RoutinesConfig { routines: vec![] }, no_groups()),
        Scenes::new(),
    );
    let (msgs, effects) = handle_message(
        &mut core,
        Message::SendDeviceState { device: lamp("l1", true, None) },
        &no_ctx(),
        &no_ctx(),
    ).unwrap();
    assert_eq!(msgs.len(), 0);
    assert_eq!(effects.len(), 1);
    assert!(matches!(&effects[0], Effect::PushDeviceState { .. }));
    let (_, effects) = handle_message(
        &mut core,
        Message::DbDeleteScene { scene_id: SceneId::new("x".to_string()) },
        &no_ctx(),
        &no_ctx(),
    ).unwrap();
    assert_eq!(effects.len(), 3);
    assert!(matches!(&effects[0], Effect::DeleteScene { .. }));
    assert!(matches!(&effects[1], Effect::RefreshScenes));
    assert!(matches!(&effects[2], Effect::Broadcast));
    let (msgs, effects) = handle_message(
        &mut core,
        Message::Action(Action::Custom(CustomActionDescriptor {
            integration_id: IntegrationId::new("neato".to_string()),
            payload: "clean house".to_string(),
        })),
        &no_ctx(),
        &no_ctx(),
    ).unwrap();
    assert_eq!(msgs.len(), 0);
    assert!(matches!(&effects[0], Effect::RunIntegrationAction { .. }));
}

#[test]
fn dispatcher_reports_unknown_routines() {
    let mut core = CoreState::new(
        Rules::new(RoutinesConfig { routines: vec![] }, no_groups()),
        Scenes::new(),
    );
    let r = handle_message(
        &mut core,
        Message::Action(Action::ForceTriggerRoutine(ForceTriggerRoutineDescriptor {
            routine_id: RoutineId::new("nope".to_string()),
        })),
        &no_ctx(),
        &no_ctx(),
    );
    assert!(matches!(r, Err(DispatchError::RoutineNotFound)));
}

#[test]
fn dispatcher_set_expected_state_cascades_a_send() {
    let mut core = CoreState::new(
        Rules::new(RoutinesConfig { routines: vec![] }, no_groups()),
        Scenes::new(),
    );
    let (msgs, _) = handle_message(
        &mut core,
        Message::SetExpectedState { device: lamp("l1", true, None), set_scene: false, skip_send: false },
        &no_ctx(),
        &no_ctx(),
    ).unwrap();
    assert_eq!(msgs.len(), 1);
    assert!(matches!(&msgs[0], Message::SendDeviceState { .. }));
    // skip_send suppresses the cascade.
    let (msgs, _) = handle_message(
        &mut core,
        Message::SetExpectedState { device: lamp("l2", true, None), set_scene: false, skip_send: true },
        &no_ctx(),
        &no_ctx(),
    ).unwrap();
    assert_eq!(msgs.len(), 0);
}

fn scene_with_lamp_on(scene: &str, lamp_id: &str) -> (SceneId, SceneConfig) {
    let mut devices: KvMap<DeviceKey, SceneDeviceState> = KvMap::new();
    devices.insert(
        key("test", lamp_id),
        SceneDeviceState {
            power: Some(true),
            brightness: Some(800),
            color: None,
            cct: None,
            transition_ms: None,
        },
    );
    (SceneId::new(scene.to_string()), SceneConfig { name: scene.to_string(), devices })
}

#[test]
fn activating_a_scene_sets_and_stamps_devices() {
    let mut scenes = Scenes::new();
    let (id, config) = scene_with_lamp_on("evening", "l1");
    scenes.add_scene(id, config);
    let mut core = CoreState::new(
        Rules::new(RoutinesConfig { routines: vec![] }, no_groups()),
        scenes,
    );
    handle_message(
        &mut core,
        Message::DeviceRefresh { device: lamp("l1", false, Some(100)) },
        &no_ctx(),
        &no_ctx(),
    ).unwrap();
    let (msgs, effects) = handle_message(
        &mut core,
        Message::Action(Action::ActivateScene(SceneDescriptor {
            scene_id: SceneId::new("evening".to_string()),
            device_keys: None,
            group_keys: None,
        })),
        &no_ctx(),
        &no_ctx(),
    ).unwrap();
    assert_eq!(effects.len(), 0);
    assert_eq!(msgs.len(), 1);
    match &msgs[0] {
        Message::SetExpectedState { device, set_scene, skip_send } => {
            assert!(*set_scene);
            assert!(!*skip_send);
            assert!(matches!(&device.scene, Some(s) if s.0 == "evening"));
            match &device.state {
                DeviceState::Light(l) => {
                    assert!(l.power);
                    assert_eq!(l.brightness, Some(800));
                },
                _ => panic!("expected a light"),
            }
        },
        _ => panic!("expected a set-expected-state message"),
    }
    // An unknown scene sets nothing.
    let (msgs, _) = handle_message(
        &mut core,
        Message::Action(Action::ActivateScene(SceneDescriptor {
            scene_id: SceneId::new("nope".to_string()),
            device_keys: None,
            group_keys: None,
        })),
        &no_ctx(),
        &no_ctx(),
    ).unwrap();
    assert_eq!(msgs.len(), 0);
}

#[test]
fn cycling_moves_to_the_next_listed_scene() {
    let mut scenes = Scenes::new();
    let (id_a, config_a) = scene_with_lamp_on("a", "l1");
    let (id_b, config_b) = scene_with_lamp_on("b", "l1");
    scenes.add_scene(id_a, config_a);
    scenes.add_scene(id_b, config_b);
    let descriptor = CycleScenesDescriptor {
        scenes: vec![
            SceneDescriptor {
                scene_id: SceneId::new("a".to_string()),
                device_keys: None,
                group_keys: None,
            },
            SceneDescriptor {
                scene_id: SceneId::new("b".to_string()),
                device_keys: None,
                group_keys: None,
            },
        ],
        nowrap: None,
    };
    // No scene active: cycling activates the first listed scene.
    let plain = state_of(vec![lamp("l1", false, None)]);
    let out = scenes.cycle_scenes(&plain, &descriptor);
    assert_eq!(out.len(), 1);
    assert!(matches!(&out[0].scene, Some(s) if s.0 == "a"));
    // Scene "a" active: cycling moves to "b".
    let mut in_a = lamp("l1", true, Some(800));
    in_a.scene = Some(SceneId::new("a".to_string()));
    let state_a = state_of(vec![in_a]);
    let out = scenes.cycle_scenes(&state_a, &descriptor);
    assert_eq!(out.len(), 1);
    assert!(matches!(&out[0].scene, Some(s) if s.0 == "b"));
    // Scene "b" active: wrapping back to "a" unless nowrap forbids it.
    let mut in_b = lamp("l1", true, Some(800));
    in_b.scene = Some(SceneId::new("b".to_string()));
    let state_b = state_of(vec![in_b]);
    let out = scenes.cycle_scenes(&state_b, &descriptor);
    assert_eq!(out.len(), 1);
    assert!(matches!(&out[0].scene, Some(s) if s.0 == "a"));
    let nowrap = CycleScenesDescriptor { nowrap: Some(true), ..descriptor };
    let out = scenes.cycle_scenes(&state_b, &nowrap);
    assert_eq!(out.len(), 0);
}

#[test]
fn dim_action_dims_targeted_and_grouped_devices() {
    let mut group_map: KvMap<GroupId, GroupDeviceKeys> = KvMap::new();
    group_map.insert(
        GroupId::new("lamps".to_string()),
        GroupDeviceKeys { keys: vec![key("test", "l1")] },
    );
    let rules = Rules::new(RoutinesConfig { routines: vec![] }, Groups::new(group_map));
    let mut core = CoreState::new(rules, Scenes::new());
    handle_message(
        &mut core,
        Message::DeviceRefresh { device: lamp("l1", true, Some(500)) },
        &no_ctx(),
        &no_ctx(),
    ).unwrap();
    handle_message(
        &mut core,
        Message::DeviceRefresh { device: lamp("l2", true, Some(300)) },
        &no_ctx(),
        &no_ctx(),
    ).unwrap();
    let (msgs, _) = handle_message(
        &mut core,
        Message::Action(Action::Dim(DimDescriptor {
            device_keys: Some(vec![key("test", "l2")]),
            group_keys: Some(vec![GroupId::new("lamps".to_string())]),
            step: None,
        })),
        &no_ctx(),
        &no_ctx(),
    ).unwrap();
    // Group members come first, then explicit device keys.
    assert_eq!(msgs.len(), 2);
    match &msgs[0] {
        Message::SetExpectedState { device, .. } => match &device.state {
            DeviceState::Light(l) => assert_eq!(l.brightness, Some(400)),
            _ => panic!("expected a light"),
        },
        _ => panic!("expected a set-expected-state message"),
    }
    match &msgs[1] {
        Message::SetExpectedState { device, .. } => match &device.state {
            DeviceState::Light(l) => assert_eq!(l.brightness, Some(200)),
            _ => panic!("expected a light"),
        },
        _ => panic!("expected a set-expected-state message"),
    }
}

#[test]
fn nested_groups_flatten_depth_first() {
    let configs = vec![
        GroupConfig {
            group_id: GroupId::new("house".to_string()),
            devices: vec![key("test", "hall")],
            groups: vec![GroupId::new("bedroom".to_string()), GroupId::new("ghost".to_string())],
        },
        GroupConfig {
            group_id: GroupId::new("bedroom".to_string()),
            devices: vec![key("test", "bed1"), key("test", "bed2")],
            groups: vec![],
        },
    ];
    let groups = Groups::try_from_config(&configs).unwrap();
    let members = groups.find_group_device_refs(&GroupId::new("house".to_string()));
    assert_eq!(members.len(), 3);
    assert_eq!(members[0].device_id.0, "hall");
    assert_eq!(members[1].device_id.0, "bed1");
    assert_eq!(members[2].device_id.0, "bed2");
    let members = groups.find_group_device_refs(&GroupId::new("bedroom".to_string()));
    assert_eq!(members.len(), 2);
}

#[test]
fn cyclic_group_configurations_are_rejected_at_load() {
    let cyclic = vec![
        GroupConfig {
            group_id: GroupId::new("a".to_string()),
            devices: vec![],
            groups: vec![GroupId::new("b".to_string())],
        },
        GroupConfig {
            group_id: GroupId::new("b".to_string()),
            devices: vec![key("test", "l1")],
            groups: vec![GroupId::new("a".to_string())],
        },
    ];
    assert!(matches!(Groups::try_from_config(&cyclic), Err(GroupsError::CycleDetected)));
    let self_cycle = vec![GroupConfig {
        group_id: GroupId::new("a".to_string()),
        devices: vec![],
        groups: vec![GroupId::new("a".to_string())],
    }];
    assert!(matches!(Groups::try_from_config(&self_cycle), Err(GroupsError::CycleDetected)));
}

#[test]
fn group_and_scene_invalidation_names_affected_entries() {
    let mut group_map: KvMap<GroupId, GroupDeviceKeys> = KvMap::new();
    group_map.insert(
        GroupId::new("lamps".to_string()),
        GroupDeviceKeys { keys: vec![key("test", "l1"), key("test", "l2")] },
    );
    group_map.insert(
        GroupId::new("sensors".to_string()),
        GroupDeviceKeys { keys: vec![key("test", "m1")] },
    );
    let groups = Groups::new(group_map);
    let touched = groups.invalidate(&key("test", "l2"));
    assert_eq!(touched.len(), 1);
    assert_eq!(touched[0].0, "lamps");
    assert_eq!(groups.invalidate(&key("test", "gone")).len(), 0);
    let mut scenes = Scenes::new();
    let (id, config) = scene_with_lamp_on("evening", "l1");
    scenes.add_scene(id, config);
    let touched = scenes.invalidate(&key("test", "l1"));
    assert_eq!(touched.len(), 1);
    assert_eq!(touched[0].0, "evening");
    assert_eq!(scenes.invalidate(&key("test", "l2")).len(), 0);
}

#[test]
fn rgb_colors_convert_to_hsv_components() {
    let red = color_config_as_device_color(ColorConfig::Rgb(Rgb { red: 255, green: 0, blue: 0 }));
    let DeviceColor::Hsv(h) = red;
    assert_eq!((h.hue, h.saturation, h.value), (0, 1000, 1000));
    let green = color_config_as_device_color(
        ColorConfig::Rgb(Rgb { red: 0, green: 255, blue: 0 }),
    );
    let DeviceColor::Hsv(h) = green;
    assert_eq!((h.hue, h.saturation, h.value), (120, 1000, 1000));
    let blue = color_config_as_device_color(ColorConfig::Rgb(Rgb { red: 0, green: 0, blue: 255 }));
    let DeviceColor::Hsv(h) = blue;
    assert_eq!((h.hue, h.saturation, h.value), (240, 1000, 1000));
    let black = color_config_as_device_color(ColorConfig::Rgb(Rgb { red: 0, green: 0, blue: 0 }));
    let DeviceColor::Hsv(h) = black;
    assert_eq!((h.saturation, h.value), (0, 0));
    // An already-converted color passes through unchanged.
    let direct = color_config_as_device_color(
        ColorConfig::Hsv(Hsv { hue: 42, saturation: 7, value: 900 }),
    );
    let DeviceColor::Hsv(h) = direct;
    assert_eq!((h.hue, h.saturation, h.value), (42, 7, 900));
}

#[test]
fn bridge_lights_scale_into_the_core_model() {
    let bridge = BridgeLight {
        state: BridgeLightState { on: true, hue: Some(32768), sat: Some(254), bri: Some(127) },
    };
    let light = to_light(bridge);
    assert!(light.power);
    assert_eq!(light.brightness, None);
    match light.color {
        Some(DeviceColor::Hsv(h)) => {
            assert_eq!((h.hue, h.saturation, h.value), (180, 1000, 500));
        },
        _ => panic!("expected a color"),
    }
    // A bridge record without full color data carries no color.
    let plain = BridgeLight {
        state: BridgeLightState { on: false, hue: None, sat: Some(254), bri: Some(254) },
    };
    let light = to_light(plain);
    assert!(!light.power);
    assert!(light.color.is_none());
}

#[test]
fn tuya_state_mapping_is_exact() {
    let full = lamp("l1", true, Some(500));
    let t = to_tuya_state(&full).unwrap();
    assert!(t.power_on);
    // 500/1000 brightness at full color value: 500 * 990 / 1000 + 10.
    assert_eq!(t.brightness, 505);
    // No color temperature set: 4000 K in the 2700..=4100 band.
    assert_eq!(t.color_temperature, (4000 - 2700) * 1000 / 1400);
    // A brightness-less light is treated as full scale.
    let bare = lamp("l2", false, None);
    let t = to_tuya_state(&bare).unwrap();
    assert!(!t.power_on);
    assert_eq!(t.brightness, 1000);
    // A sensor cannot be pushed to a bulb.
    assert!(to_tuya_state(&motion_sensor("m1", true)).is_err());
}

#[test]
fn registration_falls_back_to_the_default_record() {
    let fallback = register_device(
        DeviceId::new("bulb".to_string()),
        "Bulb".to_string(),
        IntegrationId::new("tuya".to_string()),
        None,
    );
    let expected = default_device(
        DeviceId::new("bulb".to_string()),
        "Bulb".to_string(),
        IntegrationId::new("tuya".to_string()),
    );
    assert!(device_eq(&fallback, &expected));
    match &fallback.state {
        DeviceState::Light(l) => assert!(!l.power),
        _ => panic!("expected a light"),
    }
    let fetched = register_device(
        DeviceId::new("bulb".to_string()),
        "Bulb".to_string(),
        IntegrationId::new("tuya".to_string()),
        Some(lamp("bulb", true, Some(700))),
    );
    assert!(device_eq(&fetched, &lamp("bulb", true, Some(700))));
}

#[test]
fn polled_tuya_values_scale_back_into_the_model() {
    let device = tuya_device_from_poll(
        DeviceId::new("bulb".to_string()),
        "Bulb".to_string(),
        IntegrationId::new("tuya".to_string()),
        None,
        Some(505),
        Some(928),
    );
    match &device.state {
        DeviceState::Light(l) => {
            // An absent power value counts as on.
            assert!(l.power);
            assert_eq!(l.brightness, Some(500));
            assert_eq!(l.cct.unwrap().get_cct(), 928 * 1400 / 1000 + 2700);
            assert_eq!(l.transition_ms, Some(1000));
        },
        _ => panic!("expected a light"),
    }
    // The push mapping takes the polled brightness back to the bulb's scale.
    let pushed = to_tuya_state(&device).unwrap();
    assert_eq!(pushed.brightness, 505);
    // Out-of-band reports are clamped, below-floor reports mean darkness.
    let device = tuya_device_from_poll(
        DeviceId::new("bulb".to_string()),
        "Bulb".to_string(),
        IntegrationId::new("tuya".to_string()),
        Some(false),
        Some(5),
        None,
    );
    match &device.state {
        DeviceState::Light(l) => {
            assert!(!l.power);
            assert_eq!(l.brightness, Some(0));
            assert!(l.cct.is_none());
        },
        _ => panic!("expected a light"),
    }
}

#[test]
fn random_integration_builds_its_record_from_a_drawn_color() {
    let color = DeviceColor::Hsv(Hsv { hue: 120, saturation: 900, value: 700 });
    let device = mk_random_device(
        "Mood light".to_string(),
        IntegrationId::new("random".to_string()),
        color,
    );
    assert_eq!(device.id.0, "color");
    assert_eq!(device.name, "Mood light");
    match &device.state {
        DeviceState::Light(l) => {
            assert!(l.power);
            assert_eq!(l.brightness, Some(1000));
            assert_eq!(l.transition_ms, Some(1000));
            match l.color {
                Some(DeviceColor::Hsv(h)) => assert_eq!((h.hue, h.saturation, h.value), (120, 900, 700)),
                _ => panic!("expected the drawn color"),
            }
        },
        _ => panic!("expected a light"),
    }
    assert_eq!(random_brightness_range(None, None), (0, 1000));
    assert_eq!(random_brightness_range(Some(1200), Some(300)), (1000, 300));
}

#[test]
fn snapshots_compare_by_contents_not_order() {
    let a = state_of(vec![motion_sensor("m1", true), lamp("l1", false, None)]);
    let b = state_of(vec![lamp("l1", false, None), motion_sensor("m1", true)]);
    assert!(states_equal(&a, &b));
    let c = state_of(vec![lamp("l1", true, None), motion_sensor("m1", true)]);
    assert!(!states_equal(&a, &c));
    let shorter = state_of(vec![motion_sensor("m1", true)]);
    assert!(!states_equal(&a, &shorter));
    assert!(find_device(&a, &key("test", "l1")).is_some());
    assert!(find_device(&a, &key("test", "nope")).is_none());
}

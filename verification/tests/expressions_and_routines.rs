use homectl::color::Capabilities;
use homectl::device::{Device, DeviceData, DeviceKey, DeviceState, ManagedDevice, SceneBinding, SensorValue};
use homectl::device_table::DevicesState;
use homectl::error::HubError;
use homectl::event::{Action, DimDescriptor, Event, ForceTriggerRoutineDescriptor};
use homectl::expr::{
    condition_holds, eval_action_expr, evaluate, ActionExpr, Assignment, Evaluator, Expr,
    ExprContext, ExprError, ExprValue,
};
use homectl::groups::FlattenedGroup;
use homectl::ids::{GroupId, RoutineId, SceneId};
use homectl::routines::{Routine, Routines};
use homectl::scene::SceneDeviceState;
use homectl::scenes::{FlattenedEntry, FlattenedScene};

fn light(id: &str, power: bool, brightness: Option<u16>) -> Device {
    Device::new(
        DeviceKey::new("dummy", id),
        id.to_string(),
        DeviceData::Managed(ManagedDevice {
            state: DeviceState { power, brightness, color: None, transition_ms: None },
            raw: None,
            capabilities: Capabilities::none(),
        }),
    )
}

fn sensor(id: &str, value: SensorValue) -> Device {
    Device::new(DeviceKey::new("dummy", id), id.to_string(), DeviceData::Sensor(value))
}

fn context() -> ExprContext {
    let mut bound = light("bound", true, Some(250));
    bound.scene = Some(SceneBinding { scene_id: SceneId::new("evening"), activation_id: 3 });
    ExprContext {
        devices: vec![
            light("on", true, Some(800)),
            light("off", false, None),
            bound,
            sensor("door", SensorValue::Boolean(true)),
            sensor("lux", SensorValue::Number(-7)),
        ],
        groups: vec![
            FlattenedGroup {
                id: GroupId::new("mixed"),
                name: "mixed".to_string(),
                device_keys: vec![DeviceKey::new("dummy", "on"), DeviceKey::new("dummy", "off")],
            },
            FlattenedGroup {
                id: GroupId::new("lit"),
                name: "lit".to_string(),
                device_keys: vec![DeviceKey::new("dummy", "on"), DeviceKey::new("dummy", "door")],
            },
            FlattenedGroup { id: GroupId::new("empty"), name: "e".to_string(), device_keys: vec![] },
        ],
        scenes: vec![FlattenedScene {
            id: SceneId::new("evening"),
            name: "Evening".to_string(),
            devices: vec![FlattenedEntry {
                key: DeviceKey::new("dummy", "bound"),
                state: SceneDeviceState {
                    power: true,
                    color: None,
                    brightness: Some(250),
                    transition_ms: None,
                },
            }],
        }],
        now: 615,
    }
}

fn b(e: Expr) -> Box<Expr> {
    Box::new(e)
}

fn key(id: &str) -> DeviceKey {
    DeviceKey::new("dummy", id)
}

#[test]
fn literals_and_boolean_operators() {
    let ctx = context();
    assert_eq!(evaluate(&ctx, &Expr::Bool(true)), Ok(ExprValue::Bool(true)));
    assert_eq!(evaluate(&ctx, &Expr::Int(-4)), Ok(ExprValue::Int(-4)));
    assert_eq!(evaluate(&ctx, &Expr::Not(b(Expr::Bool(true)))), Ok(ExprValue::Bool(false)));
    assert_eq!(
        evaluate(&ctx, &Expr::And(b(Expr::Bool(true)), b(Expr::Bool(false)))),
        Ok(ExprValue::Bool(false))
    );
    assert_eq!(
        evaluate(&ctx, &Expr::Or(b(Expr::Bool(false)), b(Expr::Bool(true)))),
        Ok(ExprValue::Bool(true))
    );
    assert_eq!(evaluate(&ctx, &Expr::Not(b(Expr::Int(1)))), Err(ExprError::TypeMismatch));
    assert_eq!(
        evaluate(&ctx, &Expr::And(b(Expr::Int(1)), b(Expr::Bool(true)))),
        Err(ExprError::TypeMismatch)
    );
}

#[test]
fn arithmetic_and_comparison() {
    let ctx = context();
    assert_eq!(evaluate(&ctx, &Expr::Add(b(Expr::Int(2)), b(Expr::Int(3)))), Ok(ExprValue::Int(5)));
    assert_eq!(evaluate(&ctx, &Expr::Sub(b(Expr::Int(2)), b(Expr::Int(3)))), Ok(ExprValue::Int(-1)));
    assert_eq!(evaluate(&ctx, &Expr::Mul(b(Expr::Int(-2)), b(Expr::Int(3)))), Ok(ExprValue::Int(-6)));
    assert_eq!(evaluate(&ctx, &Expr::Lt(b(Expr::Int(2)), b(Expr::Int(3)))), Ok(ExprValue::Bool(true)));
    assert_eq!(evaluate(&ctx, &Expr::Le(b(Expr::Int(3)), b(Expr::Int(3)))), Ok(ExprValue::Bool(true)));
    assert_eq!(evaluate(&ctx, &Expr::Lt(b(Expr::Int(3)), b(Expr::Int(3)))), Ok(ExprValue::Bool(false)));
    assert_eq!(evaluate(&ctx, &Expr::Eq(b(Expr::Int(3)), b(Expr::Int(3)))), Ok(ExprValue::Bool(true)));
    assert_eq!(
        evaluate(&ctx, &Expr::Eq(b(Expr::Bool(false)), b(Expr::Bool(true)))),
        Ok(ExprValue::Bool(false))
    );
    assert_eq!(
        evaluate(&ctx, &Expr::Eq(b(Expr::Bool(false)), b(Expr::Int(0)))),
        Err(ExprError::TypeMismatch)
    );
    assert_eq!(
        evaluate(&ctx, &Expr::Add(b(Expr::Bool(false)), b(Expr::Int(0)))),
        Err(ExprError::TypeMismatch)
    );
}

#[test]
fn arithmetic_that_does_not_fit_is_an_overflow() {
    let ctx = context();
    assert_eq!(
        evaluate(&ctx, &Expr::Add(b(Expr::Int(i64::MAX)), b(Expr::Int(1)))),
        Err(ExprError::Overflow)
    );
    assert_eq!(
        evaluate(&ctx, &Expr::Sub(b(Expr::Int(i64::MIN)), b(Expr::Int(1)))),
        Err(ExprError::Overflow)
    );
    assert_eq!(
        evaluate(&ctx, &Expr::Mul(b(Expr::Int(i64::MIN)), b(Expr::Int(-1)))),
        Err(ExprError::Overflow)
    );
    assert_eq!(
        evaluate(&ctx, &Expr::Add(b(Expr::Int(i64::MAX)), b(Expr::Int(0)))),
        Ok(ExprValue::Int(i64::MAX))
    );
}

#[test]
fn the_first_failure_is_the_failure_of_the_whole() {
    let ctx = context();
    let unknown = Expr::DevicePower(key("nope"));
    let mismatch = Expr::Not(b(Expr::Int(1)));
    assert_eq!(
        evaluate(&ctx, &Expr::And(b(unknown), b(mismatch))),
        Err(ExprError::UnknownDevice)
    );
    let unknown = Expr::DevicePower(key("nope"));
    let mismatch = Expr::Not(b(Expr::Int(1)));
    assert_eq!(
        evaluate(&ctx, &Expr::And(b(mismatch), b(unknown))),
        Err(ExprError::TypeMismatch)
    );
}

#[test]
fn device_group_scene_and_time_lookups() {
    let ctx = context();
    assert_eq!(evaluate(&ctx, &Expr::DevicePower(key("on"))), Ok(ExprValue::Bool(true)));
    assert_eq!(evaluate(&ctx, &Expr::DevicePower(key("off"))), Ok(ExprValue::Bool(false)));
    assert_eq!(evaluate(&ctx, &Expr::DevicePower(key("door"))), Err(ExprError::UnknownDevice));
    assert_eq!(evaluate(&ctx, &Expr::DeviceBrightness(key("on"))), Ok(ExprValue::Int(800)));
    assert_eq!(evaluate(&ctx, &Expr::DeviceBrightness(key("off"))), Ok(ExprValue::Int(0)));
    assert_eq!(evaluate(&ctx, &Expr::Sensor(key("door"))), Ok(ExprValue::Bool(true)));
    assert_eq!(evaluate(&ctx, &Expr::Sensor(key("lux"))), Ok(ExprValue::Int(-7)));
    assert_eq!(evaluate(&ctx, &Expr::Sensor(key("on"))), Err(ExprError::UnknownDevice));
    assert_eq!(
        evaluate(&ctx, &Expr::DeviceInScene(key("bound"), SceneId::new("evening"))),
        Ok(ExprValue::Bool(true))
    );
    assert_eq!(
        evaluate(&ctx, &Expr::DeviceInScene(key("bound"), SceneId::new("morning"))),
        Ok(ExprValue::Bool(false))
    );
    assert_eq!(
        evaluate(&ctx, &Expr::DeviceInScene(key("on"), SceneId::new("evening"))),
        Ok(ExprValue::Bool(false))
    );
    assert_eq!(
        evaluate(&ctx, &Expr::DeviceInScene(key("nope"), SceneId::new("evening"))),
        Err(ExprError::UnknownDevice)
    );
    assert_eq!(
        evaluate(&ctx, &Expr::SceneHolds(SceneId::new("evening"), key("bound"))),
        Ok(ExprValue::Bool(true))
    );
    assert_eq!(
        evaluate(&ctx, &Expr::SceneHolds(SceneId::new("evening"), key("on"))),
        Ok(ExprValue::Bool(false))
    );
    assert_eq!(
        evaluate(&ctx, &Expr::SceneHolds(SceneId::new("morning"), key("bound"))),
        Ok(ExprValue::Bool(false))
    );
    assert_eq!(evaluate(&ctx, &Expr::GroupAllOn(GroupId::new("mixed"))), Ok(ExprValue::Bool(false)));
    assert_eq!(evaluate(&ctx, &Expr::GroupAnyOn(GroupId::new("mixed"))), Ok(ExprValue::Bool(true)));
    assert_eq!(evaluate(&ctx, &Expr::GroupAllOn(GroupId::new("lit"))), Ok(ExprValue::Bool(true)));
    assert_eq!(evaluate(&ctx, &Expr::GroupAllOn(GroupId::new("empty"))), Ok(ExprValue::Bool(true)));
    assert_eq!(evaluate(&ctx, &Expr::GroupAnyOn(GroupId::new("empty"))), Ok(ExprValue::Bool(false)));
    assert_eq!(evaluate(&ctx, &Expr::GroupAnyOn(GroupId::new("none"))), Err(ExprError::UnknownGroup));
    assert_eq!(evaluate(&ctx, &Expr::TimeOfDay), Ok(ExprValue::Int(615)));
    assert!(condition_holds(&ctx, &Expr::Lt(b(Expr::Int(600)), b(Expr::TimeOfDay))));
    assert!(!condition_holds(&ctx, &Expr::Int(1)));
    assert!(!condition_holds(&ctx, &Expr::DevicePower(key("nope"))));
}

#[test]
fn evaluator_takes_snapshots_and_keeps_the_time() {
    let mut evaluator = Evaluator::new();
    evaluator.set_now(1440 + 75);
    assert_eq!(evaluator.get_context().now, 75);
    let devices = DevicesState(vec![light("on", true, Some(1))]);
    let groups = context().groups;
    let scenes = context().scenes;
    evaluator.invalidate(&devices, &groups, &scenes);
    let ctx = evaluator.get_context();
    assert_eq!(ctx.now, 75);
    assert_eq!(ctx.devices, devices.0);
    assert_eq!(ctx.groups, groups);
    assert_eq!(ctx.scenes, scenes);
}

#[test]
fn action_expressions_ask_for_device_states() {
    let ctx = context();
    let devices = DevicesState(context().devices);
    let expr = ActionExpr {
        assignments: vec![
            Assignment::Power { device: key("off"), value: Expr::DevicePower(key("on")) },
            Assignment::Brightness {
                device: key("on"),
                value: Expr::Add(b(Expr::DeviceBrightness(key("on"))), b(Expr::Int(500))),
            },
            Assignment::Brightness { device: key("on"), value: Expr::Int(-3) },
        ],
    };
    let events = eval_action_expr(&expr, &ctx, &devices).unwrap();
    assert_eq!(events.len(), 3);
    match &events[0] {
        Event::SetInternalState { device, skip_external_update } => {
            assert_eq!(device.key, key("off"));
            assert!(device.get_state().unwrap().power);
            assert_eq!(*skip_external_update, None);
        }
        other => panic!("unexpected event {:?}", other),
    }
    match &events[1] {
        Event::SetInternalState { device, .. } => {
            assert_eq!(device.get_state().unwrap().brightness, Some(1000));
            assert!(device.get_state().unwrap().power);
        }
        other => panic!("unexpected event {:?}", other),
    }
    match &events[2] {
        Event::SetInternalState { device, .. } => {
            assert_eq!(device.get_state().unwrap().brightness, Some(0));
        }
        other => panic!("unexpected event {:?}", other),
    }
}

#[test]
fn a_failing_assignment_leaves_no_events() {
    let ctx = context();
    let devices = DevicesState(context().devices);
    let failing = |a: Assignment| {
        ActionExpr {
            assignments: vec![Assignment::Power { device: key("on"), value: Expr::Bool(false) }, a],
        }
    };
    assert_eq!(
        eval_action_expr(
            &failing(Assignment::Power { device: key("nope"), value: Expr::Bool(true) }),
            &ctx,
            &devices
        ),
        Err(ExprError::UnknownDevice)
    );
    assert_eq!(
        eval_action_expr(
            &failing(Assignment::Power { device: key("door"), value: Expr::Bool(true) }),
            &ctx,
            &devices
        ),
        Err(ExprError::UnknownDevice)
    );
    assert_eq!(
        eval_action_expr(
            &failing(Assignment::Power { device: key("on"), value: Expr::Int(1) }),
            &ctx,
            &devices
        ),
        Err(ExprError::TypeMismatch)
    );
    assert_eq!(
        eval_action_expr(
            &failing(Assignment::Brightness { device: key("on"), value: Expr::Bool(true) }),
            &ctx,
            &devices
        ),
        Err(ExprError::TypeMismatch)
    );
    assert_eq!(
        eval_action_expr(
            &failing(Assignment::Brightness {
                device: key("on"),
                value: Expr::Add(b(Expr::Int(i64::MAX)), b(Expr::Int(1)))
            }),
            &ctx,
            &devices
        ),
        Err(ExprError::Overflow)
    );
    assert_eq!(eval_action_expr(&ActionExpr { assignments: vec![] }, &ctx, &devices), Ok(vec![]));
}

fn dim_action() -> Action {
    Action::Dim(DimDescriptor { device_keys: None, group_keys: None, step: Some(1) })
}

fn routine(id: &str, condition: Expr, actions: usize, edge_trigger: bool) -> Routine {
    Routine {
        id: RoutineId::new(id),
        name: id.to_string(),
        condition,
        on_true: (0..actions).map(|_| dim_action()).collect(),
        edge_trigger,
    }
}

fn context_with_light(power: bool) -> ExprContext {
    ExprContext { devices: vec![light("l", power, None)], groups: vec![], scenes: vec![], now: 0 }
}

fn fires_of(events: &[Event], id: &str) -> usize {
    events
        .iter()
        .filter(|e| matches!(e, Event::RoutineAction { routine_id, index: 0 } if *routine_id == RoutineId::new(id)))
        .count()
}

#[test]
fn a_routine_fires_on_each_rising_edge_and_on_each_force() {
    let mut routines =
        Routines::new(vec![routine("r", Expr::DevicePower(key("l")), 2, true)]).unwrap();
    let values = [false, true, true, false, true, false, false, true, true];
    let mut fires = 0;
    let mut forced = 0;
    let mut last = false;
    let mut edges = 0;
    for (step, value) in values.iter().enumerate() {
        let events = routines.handle_internal_state_update(&context_with_light(*value));
        assert!(events.len() == 0 || events.len() == 2);
        fires += fires_of(&events, "r");
        if *value && !last {
            edges += 1;
        }
        last = *value;
        assert_eq!(routines.was_satisfied(0), *value);
        if step % 3 == 0 {
            let events = routines.force_trigger_routine(&RoutineId::new("r")).unwrap();
            assert_eq!(
                events,
                vec![
                    Event::RoutineAction { routine_id: RoutineId::new("r"), index: 0 },
                    Event::RoutineAction { routine_id: RoutineId::new("r"), index: 1 },
                ]
            );
            fires += fires_of(&events, "r");
            forced += 1;
            // Forcing a routine leaves its mark alone.
            assert_eq!(routines.was_satisfied(0), *value);
        }
    }
    assert_eq!(edges, 3);
    assert_eq!(forced, 3);
    assert_eq!(fires, edges + forced);
}

#[test]
fn a_routine_runs_on_the_rising_edge_whatever_its_edge_trigger_says() {
    let mut routines =
        Routines::new(vec![routine("level", Expr::DevicePower(key("l")), 1, false)]).unwrap();
    let mut fires = 0;
    for value in [true, true, false, true] {
        fires += routines.handle_internal_state_update(&context_with_light(value)).len();
    }
    assert_eq!(fires, 2);
}

#[test]
fn a_routine_that_cannot_be_evaluated_does_not_block_the_others() {
    let mut routines = Routines::new(vec![
        routine("broken", Expr::DevicePower(key("nope")), 1, true),
        routine("fine", Expr::DevicePower(key("l")), 1, true),
    ])
    .unwrap();
    let events = routines.handle_internal_state_update(&context_with_light(true));
    assert_eq!(events, vec![Event::RoutineAction { routine_id: RoutineId::new("fine"), index: 0 }]);
    assert!(!routines.was_satisfied(0));
    assert!(routines.was_satisfied(1));
}

#[test]
fn forcing_an_unknown_routine_is_refused() {
    let routines = Routines::new(vec![routine("r", Expr::Bool(true), 1, true)]).unwrap();
    assert_eq!(
        routines.force_trigger_routine(&RoutineId::new("other")),
        Err(HubError::UnknownRoutine(RoutineId::new("other")))
    );
    assert!(routines.action_at(&RoutineId::new("r"), 0).is_some());
    assert!(routines.action_at(&RoutineId::new("r"), 1).is_none());
    assert!(routines.action_at(&RoutineId::new("other"), 0).is_none());
    assert_eq!(routines.find(&RoutineId::new("r")), Some(0));
    let _ = ForceTriggerRoutineDescriptor { routine_id: RoutineId::new("r") };
}

#[test]
fn two_routines_under_one_id_are_refused() {
    let r = Routines::new(vec![
        routine("a", Expr::Bool(true), 1, true),
        routine("b", Expr::Bool(true), 1, true),
        routine("a", Expr::Bool(false), 0, true),
        routine("b", Expr::Bool(false), 0, true),
    ]);
    assert!(matches!(r, Err(HubError::DuplicateRoutine(id)) if id == RoutineId::new("a")));
    assert!(Routines::new(vec![]).is_ok());
    assert_eq!(Routines::empty().find(&RoutineId::new("a")), None);
}

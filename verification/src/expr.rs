//! Expressions over a snapshot of the hub: conditions of routines and the
//! assignments of expression actions.

use vstd::prelude::*;

use crate::device::{Device, DeviceData, DeviceKey, DeviceState, SensorValue, BRIGHTNESS_MAX};
use crate::device_table::{device_at, find_device, DevicesState};
use crate::event::Event;
use crate::groups::{flat_group_ids, flat_group_index, flat_groups, FlatGroup, FlattenedGroup};
use crate::ids::{GroupId, SceneId};
use crate::scenes::{
    clone_scenes, find_entry, find_flattened, flat_scenes, projected, FlatScene, FlattenedScene,
};
use crate::table::{lemma_index_of_is, lemma_index_of_none};

verus! {

/// Minutes in a day.
pub const MINUTES_PER_DAY: u32 = 1440;

/// A value an expression comes to.
#[derive(Clone, Copy, Debug, PartialEq, Eq, Structural)]
pub enum ExprValue {
    Bool(bool),
    Int(i64),
}

/// Why an expression comes to no value.
#[derive(Clone, Copy, Debug, PartialEq, Eq, Structural)]
pub enum ExprError {
    /// An operand is of the wrong kind.
    TypeMismatch,
    /// A result does not fit in 64 bits.
    Overflow,
    /// No such device, or the device does not hold what was asked of it.
    UnknownDevice,
    UnknownGroup,
}

/// An expression.
#[derive(Debug, PartialEq, Eq)]
pub enum Expr {
    Bool(bool),
    Int(i64),
    Not(Box<Expr>),
    And(Box<Expr>, Box<Expr>),
    Or(Box<Expr>, Box<Expr>),
    Add(Box<Expr>, Box<Expr>),
    Sub(Box<Expr>, Box<Expr>),
    Mul(Box<Expr>, Box<Expr>),
    Eq(Box<Expr>, Box<Expr>),
    Lt(Box<Expr>, Box<Expr>),
    Le(Box<Expr>, Box<Expr>),
    /// Whether the device is switched on.
    DevicePower(DeviceKey),
    /// The brightness of the device in thousandths; zero where it has none.
    DeviceBrightness(DeviceKey),
    /// The reading of a sensor.
    Sensor(DeviceKey),
    /// Whether the device is bound to the scene.
    DeviceInScene(DeviceKey, SceneId),
    /// Whether the scene, flattened, holds a state for the device.
    SceneHolds(SceneId, DeviceKey),
    /// Whether every controllable device of the group is switched on.
    GroupAllOn(GroupId),
    /// Whether some controllable device of the group is switched on.
    GroupAnyOn(GroupId),
    /// The time of day, in minutes since midnight.
    TimeOfDay,
}

/// What expressions read.
pub struct EvalWorld {
    pub devices: Seq<Device>,
    pub groups: Seq<FlatGroup>,
    pub scenes: Seq<FlatScene>,
    pub now: u32,
}

/// Whether `v` fits in 64 bits.
pub open spec fn fits(v: int) -> bool {
    i64::MIN <= v <= i64::MAX
}

/// The integer `v`, or an overflow.
pub open spec fn int_result(v: int) -> Result<ExprValue, ExprError> {
    if fits(v) {
        Ok(ExprValue::Int(v as i64))
    } else {
        Err(ExprError::Overflow)
    }
}

/// Whether the device under `key` is a controllable one that is on.
pub open spec fn is_on(devices: Seq<Device>, key: (Seq<char>, Seq<char>)) -> bool {
    match device_at(devices, key) {
        Some(d) => match d.data {
            DeviceData::Managed(m) => m.state.power,
            DeviceData::Sensor(_) => false,
        },
        None => false,
    }
}

/// Whether the device under `key` is a controllable one that is off.
pub open spec fn is_off(devices: Seq<Device>, key: (Seq<char>, Seq<char>)) -> bool {
    match device_at(devices, key) {
        Some(d) => match d.data {
            DeviceData::Managed(m) => !m.state.power,
            DeviceData::Sensor(_) => false,
        },
        None => false,
    }
}

/// Whether one of the first `n` keys is a device that is on.
pub open spec fn any_on(devices: Seq<Device>, keys: Seq<DeviceKey>, n: int) -> bool
    decreases n,
{
    if n <= 0 {
        false
    } else {
        any_on(devices, keys, n - 1) || is_on(devices, keys[n - 1]@)
    }
}

/// Whether one of the first `n` keys is a device that is off.
pub open spec fn any_off(devices: Seq<Device>, keys: Seq<DeviceKey>, n: int) -> bool
    decreases n,
{
    if n <= 0 {
        false
    } else {
        any_off(devices, keys, n - 1) || is_off(devices, keys[n - 1]@)
    }
}

/// What two operands of an arithmetic or comparison operator come to.
pub open spec fn apply_int(
    a: Result<ExprValue, ExprError>,
    b: Result<ExprValue, ExprError>,
    f: spec_fn(int, int) -> Result<ExprValue, ExprError>,
) -> Result<ExprValue, ExprError> {
    match a {
        Err(e) => Err(e),
        Ok(x) => match b {
            Err(e) => Err(e),
            Ok(y) => match (x, y) {
                (ExprValue::Int(i), ExprValue::Int(j)) => f(i as int, j as int),
                _ => Err(ExprError::TypeMismatch),
            },
        },
    }
}

/// What two operands of a boolean operator come to.
pub open spec fn apply_bool(
    a: Result<ExprValue, ExprError>,
    b: Result<ExprValue, ExprError>,
    f: spec_fn(bool, bool) -> bool,
) -> Result<ExprValue, ExprError> {
    match a {
        Err(e) => Err(e),
        Ok(x) => match b {
            Err(e) => Err(e),
            Ok(y) => match (x, y) {
                (ExprValue::Bool(p), ExprValue::Bool(q)) => Ok(ExprValue::Bool(f(p, q))),
                _ => Err(ExprError::TypeMismatch),
            },
        },
    }
}

/// The value of an expression. Both operands of an operator are evaluated,
/// the left one first; the first failure is the failure of the whole.
pub open spec fn eval(w: EvalWorld, e: Expr) -> Result<ExprValue, ExprError>
    decreases e,
{
    match e {
        Expr::Bool(b) => Ok(ExprValue::Bool(b)),
        Expr::Int(i) => Ok(ExprValue::Int(i)),
        Expr::Not(a) => match eval(w, *a) {
            Ok(ExprValue::Bool(b)) => Ok(ExprValue::Bool(!b)),
            Ok(ExprValue::Int(_)) => Err(ExprError::TypeMismatch),
            Err(e) => Err(e),
        },
        Expr::And(a, b) => apply_bool(eval(w, *a), eval(w, *b), |p: bool, q: bool| p && q),
        Expr::Or(a, b) => apply_bool(eval(w, *a), eval(w, *b), |p: bool, q: bool| p || q),
        Expr::Add(a, b) => apply_int(eval(w, *a), eval(w, *b), |i: int, j: int| int_result(i + j)),
        Expr::Sub(a, b) => apply_int(eval(w, *a), eval(w, *b), |i: int, j: int| int_result(i - j)),
        Expr::Mul(a, b) => apply_int(eval(w, *a), eval(w, *b), |i: int, j: int| int_result(i * j)),
        Expr::Eq(a, b) => match eval(w, *a) {
            Err(e) => Err(e),
            Ok(x) => match eval(w, *b) {
                Err(e) => Err(e),
                Ok(y) => match (x, y) {
                    (ExprValue::Int(i), ExprValue::Int(j)) => Ok(ExprValue::Bool(i == j)),
                    (ExprValue::Bool(p), ExprValue::Bool(q)) => Ok(ExprValue::Bool(p == q)),
                    _ => Err(ExprError::TypeMismatch),
                },
            },
        },
        Expr::Lt(a, b) => apply_int(
            eval(w, *a),
            eval(w, *b),
            |i: int, j: int| Ok(ExprValue::Bool(i < j)),
        ),
        Expr::Le(a, b) => apply_int(
            eval(w, *a),
            eval(w, *b),
            |i: int, j: int| Ok(ExprValue::Bool(i <= j)),
        ),
        Expr::DevicePower(k) => match device_at(w.devices, k@) {
            Some(d) => match d.data {
                DeviceData::Managed(m) => Ok(ExprValue::Bool(m.state.power)),
                DeviceData::Sensor(_) => Err(ExprError::UnknownDevice),
            },
            None => Err(ExprError::UnknownDevice),
        },
        Expr::DeviceBrightness(k) => match device_at(w.devices, k@) {
            Some(d) => match d.data {
                DeviceData::Managed(m) => match m.state.brightness {
                    Some(b) => Ok(ExprValue::Int(b as i64)),
                    None => Ok(ExprValue::Int(0)),
                },
                DeviceData::Sensor(_) => Err(ExprError::UnknownDevice),
            },
            None => Err(ExprError::UnknownDevice),
        },
        Expr::Sensor(k) => match device_at(w.devices, k@) {
            Some(d) => match d.data {
                DeviceData::Sensor(SensorValue::Boolean(b)) => Ok(ExprValue::Bool(b)),
                DeviceData::Sensor(SensorValue::Number(n)) => Ok(ExprValue::Int(n)),
                DeviceData::Managed(_) => Err(ExprError::UnknownDevice),
            },
            None => Err(ExprError::UnknownDevice),
        },
        Expr::DeviceInScene(k, s) => match device_at(w.devices, k@) {
            Some(d) => match d.scene {
                Some(b) => Ok(ExprValue::Bool(b.scene_id@ == s@)),
                None => Ok(ExprValue::Bool(false)),
            },
            None => Err(ExprError::UnknownDevice),
        },
        Expr::SceneHolds(s, k) => Ok(ExprValue::Bool(projected(w.scenes, s@, k@) is Some)),
        Expr::GroupAllOn(g) => match flat_group_index(w.groups, g@) {
            Some(i) => Ok(
                ExprValue::Bool(
                    !any_off(
                        w.devices,
                        w.groups[i].device_keys,
                        w.groups[i].device_keys.len() as int,
                    ),
                ),
            ),
            None => Err(ExprError::UnknownGroup),
        },
        Expr::GroupAnyOn(g) => match flat_group_index(w.groups, g@) {
            Some(i) => Ok(
                ExprValue::Bool(
                    any_on(
                        w.devices,
                        w.groups[i].device_keys,
                        w.groups[i].device_keys.len() as int,
                    ),
                ),
            ),
            None => Err(ExprError::UnknownGroup),
        },
        Expr::TimeOfDay => Ok(ExprValue::Int(w.now as i64)),
    }
}

/// Whether a condition holds: it comes to `true`. A condition that fails
/// or comes to a number does not hold.
pub open spec fn holds(w: EvalWorld, e: Expr) -> bool {
    eval(w, e) == Ok::<ExprValue, ExprError>(ExprValue::Bool(true))
}

/// The snapshot expressions are evaluated against.
pub struct ExprContext {
    pub devices: Vec<Device>,
    pub groups: Vec<FlattenedGroup>,
    pub scenes: Vec<FlattenedScene>,
    pub now: u32,
}

impl View for ExprContext {
    type V = EvalWorld;

    open spec fn view(&self) -> EvalWorld {
        EvalWorld {
            devices: self.devices@,
            groups: flat_groups(self.groups@),
            scenes: flat_scenes(self.scenes@),
            now: self.now,
        }
    }
}

fn find_flat_group(groups: &Vec<FlattenedGroup>, id: &GroupId) -> (r: Option<usize>)
    ensures
        match r {
            Some(i) => flat_group_index(flat_groups(groups@), id@) == Some(i as int) && i
                < groups.len(),
            None => flat_group_index(flat_groups(groups@), id@) is None,
        },
{
    let mut i: usize = 0;
    while i < groups.len()
        invariant
            i <= groups.len(),
            forall|j: int| 0 <= j < i ==> flat_group_ids(flat_groups(groups@))[j] != id@,
        decreases groups.len() - i,
    {
        if groups[i].id.same(id) {
            proof {
                lemma_index_of_is(flat_group_ids(flat_groups(groups@)), id@, i as int);
            }
            return Some(i);
        }
        i += 1;
    }
    proof {
        lemma_index_of_none(flat_group_ids(flat_groups(groups@)), id@);
    }
    None
}

/// Whether some device of `keys` is on (`want_on`) or off.
fn any_with_power(devices: &Vec<Device>, keys: &Vec<DeviceKey>, want_on: bool) -> (b: bool)
    ensures
        want_on ==> b == any_on(devices@, keys@, keys@.len() as int),
        !want_on ==> b == any_off(devices@, keys@, keys@.len() as int),
{
    let mut found = false;
    let mut i: usize = 0;
    while i < keys.len()
        invariant
            i <= keys.len(),
            want_on ==> found == any_on(devices@, keys@, i as int),
            !want_on ==> found == any_off(devices@, keys@, i as int),
        decreases keys.len() - i,
    {
        match find_device(devices, &keys[i]) {
            Some(t) => match devices[t].data {
                DeviceData::Managed(m) => {
                    if m.state.power == want_on {
                        found = true;
                    }
                },
                DeviceData::Sensor(_) => {},
            },
            None => {},
        }
        i += 1;
    }
    found
}

fn int_operands(a: Result<ExprValue, ExprError>, b: Result<ExprValue, ExprError>) -> (r: Result<
    (i64, i64),
    ExprError,
>)
    ensures
        forall|f: spec_fn(int, int) -> Result<ExprValue, ExprError>|
            match r {
                Ok((i, j)) => #[trigger] apply_int(a, b, f) == f(i as int, j as int),
                Err(e) => apply_int(a, b, f) == Err::<ExprValue, ExprError>(e),
            },
{
    match a {
        Err(e) => Err(e),
        Ok(x) => match b {
            Err(e) => Err(e),
            Ok(y) => match (x, y) {
                (ExprValue::Int(i), ExprValue::Int(j)) => Ok((i, j)),
                _ => Err(ExprError::TypeMismatch),
            },
        },
    }
}

fn bool_operands(a: Result<ExprValue, ExprError>, b: Result<ExprValue, ExprError>) -> (r: Result<
    (bool, bool),
    ExprError,
>)
    ensures
        forall|f: spec_fn(bool, bool) -> bool|
            match r {
                Ok((p, q)) => #[trigger] apply_bool(a, b, f) == Ok::<ExprValue, ExprError>(
                    ExprValue::Bool(f(p, q)),
                ),
                Err(e) => apply_bool(a, b, f) == Err::<ExprValue, ExprError>(e),
            },
{
    match a {
        Err(e) => Err(e),
        Ok(x) => match b {
            Err(e) => Err(e),
            Ok(y) => match (x, y) {
                (ExprValue::Bool(p), ExprValue::Bool(q)) => Ok((p, q)),
                _ => Err(ExprError::TypeMismatch),
            },
        },
    }
}

/// Evaluates `e` against `ctx`.
pub fn evaluate(ctx: &ExprContext, e: &Expr) -> (r: Result<ExprValue, ExprError>)
    ensures
        r == eval(ctx@, *e),
    decreases e,
{
    match e {
        Expr::Bool(b) => Ok(ExprValue::Bool(*b)),
        Expr::Int(i) => Ok(ExprValue::Int(*i)),
        Expr::Not(a) => match evaluate(ctx, a) {
            Ok(ExprValue::Bool(b)) => Ok(ExprValue::Bool(!b)),
            Ok(ExprValue::Int(_)) => Err(ExprError::TypeMismatch),
            Err(e) => Err(e),
        },
        Expr::And(a, b) => {
            let x = evaluate(ctx, a);
            let y = evaluate(ctx, b);
            match bool_operands(x, y) {
                Ok((p, q)) => Ok(ExprValue::Bool(p && q)),
                Err(e) => Err(e),
            }
        },
        Expr::Or(a, b) => {
            let x = evaluate(ctx, a);
            let y = evaluate(ctx, b);
            match bool_operands(x, y) {
                Ok((p, q)) => Ok(ExprValue::Bool(p || q)),
                Err(e) => Err(e),
            }
        },
        Expr::Add(a, b) => {
            let x = evaluate(ctx, a);
            let y = evaluate(ctx, b);
            match int_operands(x, y) {
                Ok((i, j)) => match i.checked_add(j) {
                    Some(v) => Ok(ExprValue::Int(v)),
                    None => Err(ExprError::Overflow),
                },
                Err(e) => Err(e),
            }
        },
        Expr::Sub(a, b) => {
            let x = evaluate(ctx, a);
            let y = evaluate(ctx, b);
            match int_operands(x, y) {
                Ok((i, j)) => match i.checked_sub(j) {
                    Some(v) => Ok(ExprValue::Int(v)),
                    None => Err(ExprError::Overflow),
                },
                Err(e) => Err(e),
            }
        },
        Expr::Mul(a, b) => {
            let x = evaluate(ctx, a);
            let y = evaluate(ctx, b);
            match int_operands(x, y) {
                Ok((i, j)) => match i.checked_mul(j) {
                    Some(v) => Ok(ExprValue::Int(v)),
                    None => Err(ExprError::Overflow),
                },
                Err(e) => Err(e),
            }
        },
        Expr::Eq(a, b) => {
            let x = evaluate(ctx, a);
            let y = evaluate(ctx, b);
            match x {
                Err(e) => Err(e),
                Ok(x) => match y {
                    Err(e) => Err(e),
                    Ok(y) => match (x, y) {
                        (ExprValue::Int(i), ExprValue::Int(j)) => Ok(ExprValue::Bool(i == j)),
                        (ExprValue::Bool(p), ExprValue::Bool(q)) => Ok(ExprValue::Bool(p == q)),
                        _ => Err(ExprError::TypeMismatch),
                    },
                },
            }
        },
        Expr::Lt(a, b) => {
            let x = evaluate(ctx, a);
            let y = evaluate(ctx, b);
            match int_operands(x, y) {
                Ok((i, j)) => Ok(ExprValue::Bool(i < j)),
                Err(e) => Err(e),
            }
        },
        Expr::Le(a, b) => {
            let x = evaluate(ctx, a);
            let y = evaluate(ctx, b);
            match int_operands(x, y) {
                Ok((i, j)) => Ok(ExprValue::Bool(i <= j)),
                Err(e) => Err(e),
            }
        },
        Expr::DevicePower(k) => match find_device(&ctx.devices, k) {
            Some(t) => match ctx.devices[t].data {
                DeviceData::Managed(m) => Ok(ExprValue::Bool(m.state.power)),
                DeviceData::Sensor(_) => Err(ExprError::UnknownDevice),
            },
            None => Err(ExprError::UnknownDevice),
        },
        Expr::DeviceBrightness(k) => match find_device(&ctx.devices, k) {
            Some(t) => match ctx.devices[t].data {
                DeviceData::Managed(m) => match m.state.brightness {
                    Some(b) => Ok(ExprValue::Int(b as i64)),
                    None => Ok(ExprValue::Int(0)),
                },
                DeviceData::Sensor(_) => Err(ExprError::UnknownDevice),
            },
            None => Err(ExprError::UnknownDevice),
        },
        Expr::Sensor(k) => match find_device(&ctx.devices, k) {
            Some(t) => match ctx.devices[t].data {
                DeviceData::Sensor(SensorValue::Boolean(b)) => Ok(ExprValue::Bool(b)),
                DeviceData::Sensor(SensorValue::Number(n)) => Ok(ExprValue::Int(n)),
                DeviceData::Managed(_) => Err(ExprError::UnknownDevice),
            },
            None => Err(ExprError::UnknownDevice),
        },
        Expr::DeviceInScene(k, s) => match find_device(&ctx.devices, k) {
            Some(t) => match &ctx.devices[t].scene {
                Some(b) => Ok(ExprValue::Bool(b.scene_id.same(s))),
                None => Ok(ExprValue::Bool(false)),
            },
            None => Err(ExprError::UnknownDevice),
        },
        Expr::SceneHolds(s, k) => {
            let held = match find_flattened(&ctx.scenes, s) {
                Some(j) => find_entry(&ctx.scenes[j].devices, k).is_some(),
                None => false,
            };
            Ok(ExprValue::Bool(held))
        },
        Expr::GroupAllOn(g) => match find_flat_group(&ctx.groups, g) {
            Some(i) => Ok(
                ExprValue::Bool(!any_with_power(&ctx.devices, &ctx.groups[i].device_keys, false)),
            ),
            None => Err(ExprError::UnknownGroup),
        },
        Expr::GroupAnyOn(g) => match find_flat_group(&ctx.groups, g) {
            Some(i) => Ok(
                ExprValue::Bool(any_with_power(&ctx.devices, &ctx.groups[i].device_keys, true)),
            ),
            None => Err(ExprError::UnknownGroup),
        },
        Expr::TimeOfDay => Ok(ExprValue::Int(ctx.now as i64)),
    }
}

/// Whether the condition `e` holds in `ctx`.
pub fn condition_holds(ctx: &ExprContext, e: &Expr) -> (b: bool)
    ensures
        b == holds(ctx@, *e),
{
    match evaluate(ctx, e) {
        Ok(ExprValue::Bool(b)) => b,
        _ => false,
    }
}

/// What an assignment sets.
#[derive(Debug, PartialEq, Eq)]
pub enum Assignment {
    /// Switch the device on or off, as the expression says.
    Power { device: DeviceKey, value: Expr },
    /// Set the brightness, in thousandths, held within the range.
    Brightness { device: DeviceKey, value: Expr },
}

/// An expression that acts: assignments to devices, all evaluated against
/// the same snapshot.
#[derive(Debug, PartialEq, Eq)]
pub struct ActionExpr {
    pub assignments: Vec<Assignment>,
}

/// The brightness `v` held within `0..=BRIGHTNESS_MAX`.
pub open spec fn clamp_brightness(v: i64) -> u16 {
    if v <= 0 {
        0u16
    } else if v >= BRIGHTNESS_MAX {
        BRIGHTNESS_MAX
    } else {
        v as u16
    }
}

/// The state an assignment asks for, given the state the device has.
pub open spec fn assigned_state(w: EvalWorld, a: Assignment, current: DeviceState) -> Result<
    DeviceState,
    ExprError,
> {
    match a {
        Assignment::Power { device, value } => match eval(w, value) {
            Ok(ExprValue::Bool(b)) => Ok(DeviceState { power: b, ..current }),
            Ok(ExprValue::Int(_)) => Err(ExprError::TypeMismatch),
            Err(e) => Err(e),
        },
        Assignment::Brightness { device, value } => match eval(w, value) {
            Ok(ExprValue::Int(v)) => Ok(
                DeviceState { brightness: Some(clamp_brightness(v)), ..current },
            ),
            Ok(ExprValue::Bool(_)) => Err(ExprError::TypeMismatch),
            Err(e) => Err(e),
        },
    }
}

/// The device an assignment names.
pub open spec fn assignment_target(a: Assignment) -> DeviceKey {
    match a {
        Assignment::Power { device, .. } => device,
        Assignment::Brightness { device, .. } => device,
    }
}

/// The event an assignment leads to: a request to set the device it names,
/// as found in `devices`, to the state it asks for. It fails where the
/// device is unknown or is a sensor, and where its expression fails.
pub open spec fn assignment_event(w: EvalWorld, devices: Seq<Device>, a: Assignment) -> Result<
    Event,
    ExprError,
> {
    match device_at(devices, assignment_target(a)@) {
        Some(d) => match d.data {
            DeviceData::Managed(m) => match assigned_state(w, a, m.state) {
                Ok(s) => Ok(
                    Event::SetInternalState {
                        device: d.spec_with_state(s),
                        skip_external_update: None,
                    },
                ),
                Err(e) => Err(e),
            },
            DeviceData::Sensor(_) => Err(ExprError::UnknownDevice),
        },
        None => Err(ExprError::UnknownDevice),
    }
}

/// The events the first `n` assignments lead to, in order, or the first
/// failure among them.
pub open spec fn assignment_events(w: EvalWorld, devices: Seq<Device>, a: Seq<Assignment>, n: int) -> Result<
    Seq<Event>,
    ExprError,
>
    decreases n,
{
    if n <= 0 {
        Ok(Seq::empty())
    } else {
        match assignment_events(w, devices, a, n - 1) {
            Err(e) => Err(e),
            Ok(events) => match assignment_event(w, devices, a[n - 1]) {
                Ok(ev) => Ok(events.push(ev)),
                Err(e) => Err(e),
            },
        }
    }
}

/// Once an assignment has failed, the failure stays whatever follows.
proof fn lemma_assignment_failure_stays(
    w: EvalWorld,
    devices: Seq<Device>,
    a: Seq<Assignment>,
    m: int,
    n: int,
)
    requires
        m <= n,
        assignment_events(w, devices, a, m) is Err,
    ensures
        assignment_events(w, devices, a, n) == assignment_events(w, devices, a, m),
    decreases n - m,
{
    if m < n {
        lemma_assignment_failure_stays(w, devices, a, m, n - 1);
    }
}

/// The event one assignment leads to.
fn assignment_to_event(ctx: &ExprContext, devices: &DevicesState, a: &Assignment) -> (r: Result<
    Event,
    ExprError,
>)
    ensures
        r == assignment_event(ctx@, devices@, *a),
{
    let key = match a {
        Assignment::Power { device, .. } => device,
        Assignment::Brightness { device, .. } => device,
    };
    let t = match find_device(&devices.0, key) {
        Some(t) => t,
        None => {
            return Err(ExprError::UnknownDevice);
        },
    };
    let d = &devices.0[t];
    let current = match d.data {
        DeviceData::Managed(m) => m.state,
        DeviceData::Sensor(_) => {
            return Err(ExprError::UnknownDevice);
        },
    };
    let state = match a {
        Assignment::Power { device: _, value } => match evaluate(ctx, value) {
            Ok(ExprValue::Bool(b)) => DeviceState {
                power: b,
                brightness: current.brightness,
                color: current.color,
                transition_ms: current.transition_ms,
            },
            Ok(ExprValue::Int(_)) => {
                return Err(ExprError::TypeMismatch);
            },
            Err(e) => {
                return Err(e);
            },
        },
        Assignment::Brightness { device: _, value } => match evaluate(ctx, value) {
            Ok(ExprValue::Int(v)) => {
                let b: u16 = if v <= 0 {
                    0
                } else if v >= BRIGHTNESS_MAX as i64 {
                    BRIGHTNESS_MAX
                } else {
                    v as u16
                };
                DeviceState {
                    power: current.power,
                    brightness: Some(b),
                    color: current.color,
                    transition_ms: current.transition_ms,
                }
            },
            Ok(ExprValue::Bool(_)) => {
                return Err(ExprError::TypeMismatch);
            },
            Err(e) => {
                return Err(e);
            },
        },
    };
    Ok(Event::SetInternalState { device: d.with_state(state), skip_external_update: None })
}

/// Evaluates an expression that acts and returns the events to enqueue.
/// Nothing is changed; where an assignment fails there are no events.
pub fn eval_action_expr(expr: &ActionExpr, ctx: &ExprContext, devices: &DevicesState) -> (r: Result<
    Vec<Event>,
    ExprError,
>)
    ensures
        match r {
            Ok(events) => assignment_events(
                ctx@,
                devices@,
                expr.assignments@,
                expr.assignments@.len() as int,
            ) == Ok::<Seq<Event>, ExprError>(events@),
            Err(e) => assignment_events(
                ctx@,
                devices@,
                expr.assignments@,
                expr.assignments@.len() as int,
            ) == Err::<Seq<Event>, ExprError>(e),
        },
{
    let mut events: Vec<Event> = Vec::new();
    let mut i: usize = 0;
    while i < expr.assignments.len()
        invariant
            i <= expr.assignments.len(),
            assignment_events(ctx@, devices@, expr.assignments@, i as int) == Ok::<
                Seq<Event>,
                ExprError,
            >(events@),
        decreases expr.assignments.len() - i,
    {
        match assignment_to_event(ctx, devices, &expr.assignments[i]) {
            Ok(ev) => {
                events.push(ev);
            },
            Err(e) => {
                proof {
                    lemma_assignment_failure_stays(
                        ctx@,
                        devices@,
                        expr.assignments@,
                        i as int + 1,
                        expr.assignments@.len() as int,
                    );
                }
                return Err(e);
            },
        }
        i += 1;
    }
    Ok(events)
}

/// The holder of the snapshot that expressions are evaluated against.
pub struct Evaluator {
    context: ExprContext,
}

impl Evaluator {
    /// What the snapshot holds.
    pub closed spec fn world(&self) -> EvalWorld {
        self.context@
    }

    /// A snapshot without devices or groups, at midnight.
    pub fn new() -> (r: Evaluator)
        ensures
            r.world() == (EvalWorld {
                devices: Seq::<Device>::empty(),
                groups: Seq::<FlatGroup>::empty(),
                scenes: Seq::<FlatScene>::empty(),
                now: 0,
            }),
    {
        let r = Evaluator {
            context: ExprContext {
                devices: Vec::new(),
                groups: Vec::new(),
                scenes: Vec::new(),
                now: 0,
            },
        };
        assert(flat_groups(r.context.groups@) =~= Seq::<FlatGroup>::empty());
        assert(flat_scenes(r.context.scenes@) =~= Seq::<FlatScene>::empty());
        r
    }

    /// Sets the time of day, in minutes since midnight; minutes beyond a
    /// day count from midnight again.
    pub fn set_now(&mut self, minute: u32)
        ensures
            final(self).world() == (EvalWorld {
                now: (minute % MINUTES_PER_DAY) as u32,
                ..old(self).world()
            }),
    {
        self.context.now = minute % MINUTES_PER_DAY;
    }

    /// Takes a fresh snapshot of the devices, the groups and the flattened
    /// scenes; the time stays.
    pub fn invalidate(
        &mut self,
        devices: &DevicesState,
        groups: &Vec<FlattenedGroup>,
        scenes: &Vec<FlattenedScene>,
    )
        ensures
            final(self).world() == (EvalWorld {
                devices: devices@,
                groups: flat_groups(groups@),
                scenes: flat_scenes(scenes@),
                now: old(self).world().now,
            }),
    {
        let copy = devices.clone();
        self.context.devices = copy.0;
        self.context.groups = crate::groups::clone_groups(groups);
        self.context.scenes = clone_scenes(scenes);
    }

    /// The snapshot.
    pub fn get_context(&self) -> (r: &ExprContext)
        ensures
            r@ == self.world(),
    {
        &self.context
    }
}

} // verus!

//! The dispatcher: what the hub does with an event.
//!
//! Handling an event changes the state and leaves effects for the program
//! around the hub to carry out, in order: events to put on the bus,
//! writes to the store, devices to hand to integrations, the timer of the
//! debounced broadcast.

use vstd::prelude::*;

use crate::broadcast::BroadcastDebounce;
use crate::color::ColorMode;
use crate::device::{Device, DeviceData, DeviceKey};
use crate::device_table::device_at;
use crate::error::HubError;
use crate::event::{Action, Effect, Event, UiActionDescriptor, DEFAULT_DIM_STEP};
use crate::expr::{assignment_events, eval_action_expr, EvalWorld};
use crate::groups::{contains_key, flatten_groups, key_views};
use crate::devices::{
    activated_table, activation_error, active_from, address_error, bindings_known, dimmed_table,
    keyed_projection_table, keys_stable, known_scene_device, known_scenes_table,
    lemma_project_keeps, lemma_set_keeps_bindings, lemma_set_keeps_keys, next_id, next_position,
    project, project_device, report_events, reported, reprojected_table, set_events,
    table_after_set, table_events, with_known_scene,
};
use crate::ids::{GroupId, SceneId};
use crate::integrations_manager::integration_index;
use crate::routines::{fired_events, routine_events, routine_index, satisfied_flags, Routines};
use crate::scene::{Scene, SceneDescriptor};
use crate::scenes::{
    changed_scenes, overrides_after, scene_ids, scenes_after_delete, scenes_after_rename,
    scenes_after_store,
};
use crate::state::{enqueue_all, enqueued, schedule_effects, AppState};
use crate::table::{has_key, lemma_first_index};
use crate::ui::{entry_of, ui_after_store};

verus! {

/// Devices and activation counter are as before.
pub open spec fn devices_as_before(pre: AppState, post: AppState) -> bool {
    &&& post.devices.table() == pre.devices.table()
    &&& post.devices.next_activation() == pre.devices.next_activation()
}

/// What the activation of the scene `id` comes to.
pub open spec fn activate_outcome(
    pre: AppState,
    id: SceneId,
    device_keys: Option<Vec<DeviceKey>>,
    group_keys: Option<Vec<GroupId>>,
    post: AppState,
    r: Result<Vec<Effect>, HubError>,
) -> bool {
    &&& post == (AppState { devices: post.devices, ..pre })
    &&& match r {
        Ok(effects) => {
            &&& activation_error(
                pre.scenes.all_scenes(),
                id,
                pre.devices.table(),
                device_keys,
                group_keys,
                pre.groups.flattened(),
            ) is None
            &&& post.devices.table() == activated_table(
                pre.devices.table(),
                id,
                pre.devices.next_activation(),
                device_keys,
                group_keys,
                pre.groups.flattened(),
                pre.scenes.flattened(),
            )
            &&& post.devices.next_activation() == next_id(pre.devices.next_activation())
            &&& effects@ == enqueued(
                table_events(
                    pre.devices.table(),
                    post.devices.table(),
                    pre.devices.table().len() as int,
                ),
            )
        },
        Err(e) => {
            &&& activation_error(
                pre.scenes.all_scenes(),
                id,
                pre.devices.table(),
                device_keys,
                group_keys,
                pre.groups.flattened(),
            ) == Some(e)
            &&& devices_as_before(pre, post)
        },
    }
}

/// What a request to cycle through `list` comes to: nothing for an empty
/// list, else the activation of the scene next in turn.
pub open spec fn cycle_outcome(
    pre: AppState,
    list: Seq<SceneDescriptor>,
    nowrap: bool,
    device_keys: Option<Vec<DeviceKey>>,
    group_keys: Option<Vec<GroupId>>,
    post: AppState,
    r: Result<Vec<Effect>, HubError>,
) -> bool {
    if list.len() == 0 {
        &&& post == (AppState { devices: post.devices, ..pre })
        &&& devices_as_before(pre, post)
        &&& r matches Ok(effects) && effects@.len() == 0
    } else {
        let next = next_position(
            active_from(
                pre.devices.table(),
                list,
                device_keys,
                group_keys,
                pre.groups.flattened(),
                pre.scenes.flattened(),
                0,
            ),
            list.len() as int,
            nowrap,
        );
        0 <= next < list.len() && activate_outcome(
            pre,
            list[next].scene_id,
            device_keys,
            group_keys,
            post,
            r,
        )
    }
}

/// What a request to dim comes to.
pub open spec fn dim_outcome(
    pre: AppState,
    step: i32,
    device_keys: Option<Vec<DeviceKey>>,
    group_keys: Option<Vec<GroupId>>,
    post: AppState,
    r: Result<Vec<Effect>, HubError>,
) -> bool {
    &&& post == (AppState { devices: post.devices, ..pre })
    &&& post.devices.next_activation() == pre.devices.next_activation()
    &&& match r {
        Ok(effects) => {
            &&& address_error(
                pre.devices.table(),
                device_keys,
                group_keys,
                pre.groups.flattened(),
            ) is None
            &&& post.devices.table() == dimmed_table(
                pre.devices.table(),
                step,
                device_keys,
                group_keys,
                pre.groups.flattened(),
            )
            &&& effects@ == enqueued(
                table_events(
                    pre.devices.table(),
                    post.devices.table(),
                    pre.devices.table().len() as int,
                ),
            )
        },
        Err(e) => {
            &&& address_error(
                pre.devices.table(),
                device_keys,
                group_keys,
                pre.groups.flattened(),
            ) == Some(e)
            &&& post.devices.table() == pre.devices.table()
        },
    }
}

/// The overrides once the first `n` devices of the table that are named
/// in `keys` are pinned (`flag`) or released, in the order of the table.
pub open spec fn toggled_overrides(
    overrides: Seq<DeviceKey>,
    devices: Seq<Device>,
    keys: Seq<DeviceKey>,
    flag: bool,
    n: int,
) -> Seq<DeviceKey>
    decreases n,
{
    if n <= 0 {
        overrides
    } else {
        let rest = toggled_overrides(overrides, devices, keys, flag, n - 1);
        if has_key(key_views(keys), devices[n - 1].key@) {
            overrides_after(rest, devices[n - 1].key, flag)
        } else {
            rest
        }
    }
}

/// The writes of the override flag for the first `n` devices of the table
/// that are named in `keys`, in the order of the table.
pub open spec fn override_writes(devices: Seq<Device>, keys: Seq<DeviceKey>, flag: bool, n: int) -> Seq<
    Effect,
>
    decreases n,
{
    if n <= 0 {
        Seq::empty()
    } else {
        let rest = override_writes(devices, keys, flag, n - 1);
        if has_key(key_views(keys), devices[n - 1].key@) {
            rest.push(Effect::PersistSceneOverride { key: devices[n - 1].key, flag })
        } else {
            rest
        }
    }
}

/// What pinning or releasing the devices `keys` comes to: the overrides
/// change, the scenes are flattened anew, the devices named take the state
/// their scene now holds for them, and a broadcast is asked for.
pub open spec fn toggle_outcome(
    pre: AppState,
    keys: Seq<DeviceKey>,
    flag: bool,
    post: AppState,
    r: Result<Vec<Effect>, HubError>,
) -> bool {
    &&& post == (AppState {
        devices: post.devices,
        scenes: post.scenes,
        ws_broadcast_pending: BroadcastDebounce { pending: true },
        ..pre
    })
    &&& post.scenes.all_scenes() == pre.scenes.all_scenes()
    &&& post.scenes.stored_count() == pre.scenes.stored_count()
    &&& post.scenes.overrides() == toggled_overrides(
        pre.scenes.overrides(),
        pre.devices.table(),
        keys,
        flag,
        pre.devices.table().len() as int,
    )
    &&& post.scenes.source() == (pre.groups.flattened(), pre.devices.table())
    &&& post.scenes.current()
    &&& post.devices.next_activation() == pre.devices.next_activation()
    &&& post.devices.table() == keyed_projection_table(
        pre.devices.table(),
        keys,
        post.scenes.flattened(),
    )
    &&& r matches Ok(effects) && effects@ == override_writes(
        pre.devices.table(),
        keys,
        flag,
        pre.devices.table().len() as int,
    ) + enqueued(
        table_events(pre.devices.table(), post.devices.table(), pre.devices.table().len() as int),
    ) + schedule_effects(pre.ws_broadcast_pending.pending)
}

/// What carrying out `action` comes to, with `rules` as the routines of
/// the hub.
pub open spec fn action_outcome(
    pre: AppState,
    rules: Routines,
    action: Action,
    post: AppState,
    r: Result<Vec<Effect>, HubError>,
) -> bool {
    match action {
        Action::ActivateScene(d) => activate_outcome(
            pre,
            d.scene_id,
            d.device_keys,
            d.group_keys,
            post,
            r,
        ),
        Action::CycleScenes(d) => cycle_outcome(
            pre,
            d.scenes@,
            d.nowrap == Some(true),
            d.device_keys,
            d.group_keys,
            post,
            r,
        ),
        Action::Dim(d) => dim_outcome(
            pre,
            match d.step {
                Some(s) => s,
                None => DEFAULT_DIM_STEP,
            },
            d.device_keys,
            d.group_keys,
            post,
            r,
        ),
        Action::Custom(d) => {
            &&& post == (AppState { integrations: post.integrations, ..pre })
            &&& post.integrations.integrations() == pre.integrations.integrations()
            &&& match r {
                Ok(effects) => integration_index(
                    pre.integrations.integrations(),
                    d.integration_id@,
                ) is Some && effects@.len() == 0,
                Err(e) => integration_index(
                    pre.integrations.integrations(),
                    d.integration_id@,
                ) is None && e == HubError::UnknownIntegration(d.integration_id),
            }
        },
        Action::ForceTriggerRoutine(d) => post == pre && match r {
            Ok(effects) => routine_index(rules.routines(), d.routine_id@) matches Some(i)
                && effects@ == enqueued(routine_events(rules.routines()[i])),
            Err(e) => routine_index(rules.routines(), d.routine_id@) is None && e
                == HubError::UnknownRoutine(d.routine_id),
        },
        Action::SetDeviceState(device) => post == pre && (r matches Ok(effects) && effects@
            == seq![
            Effect::Enqueue(Event::SetInternalState { device, skip_external_update: None }),
        ]),
        Action::ToggleDeviceOverride { device_keys, override_state } => toggle_outcome(
            pre,
            device_keys@,
            override_state,
            post,
            r,
        ),
        Action::EvalExpr(expr) => post == pre && match assignment_events(
            pre.expr.world(),
            pre.devices.table(),
            expr.assignments@,
            expr.assignments@.len() as int,
        ) {
            Ok(events) => r matches Ok(effects) && effects@ == enqueued(events),
            Err(_) => r matches Err(e) && e == HubError::Expression,
        },
        Action::Ui(UiActionDescriptor::StoreUIState { key, value }) => {
            &&& post == (AppState {
                ui: post.ui,
                ws_broadcast_pending: BroadcastDebounce { pending: true },
                ..pre
            })
            &&& post.ui.entries() == ui_after_store(pre.ui.entries(), key, value)
            &&& r matches Ok(effects) && effects@ == seq![Effect::PersistUiState { key }]
                + schedule_effects(pre.ws_broadcast_pending.pending)
        },
    }
}

/// A table whose devices keep key and binding, position by position,
/// keeps its bindings known.
proof fn lemma_pointwise_bindings(before: Seq<Device>, after: Seq<Device>, scenes: Seq<Seq<char>>)
    requires
        bindings_known(before, scenes),
        after.len() == before.len(),
        forall|t: int|
            0 <= t < before.len() ==> ((#[trigger] after[t]).scene == before[t].scene || (after[t].scene matches Some(
                b,
            ) && has_key(scenes, b.scene_id@)) || after[t].scene is None),
    ensures
        bindings_known(after, scenes),
{
    assert forall|t: int| 0 <= t < after.len() implies ((#[trigger] after[t]).scene matches Some(
        b,
    ) ==> has_key(scenes, b.scene_id@)) by {
        assert(before[t].scene matches Some(b) ==> has_key(scenes, b.scene_id@));
    }
}

impl AppState {
    /// Carries out `action`, with `rules` as the routines of the hub.
    pub fn apply_action(&mut self, rules: &Routines, action: &Action) -> (r: Result<
        Vec<Effect>,
        HubError,
    >)
        requires
            old(self).wf(),
        ensures
            final(self).wf(),
            action_outcome(*old(self), *rules, *action, *final(self), r),
            keys_stable(old(self).devices.table(), final(self).devices.table()),
            final(self).rules == old(self).rules,
            final(self).warming_up == old(self).warming_up,
            r is Err ==> devices_as_before(*old(self), *final(self)),
    {
        let ghost ids = scene_ids(self.scenes.all_scenes());
        let ghost table0 = self.devices.table();
        match action {
            Action::ActivateScene(d) => {
                let r = self.devices.activate_scene(
                    &d.scene_id,
                    &d.device_keys,
                    &d.group_keys,
                    self.groups.get_flattened_groups(),
                    &self.scenes,
                );
                match r {
                    Ok(events) => {
                        proof {
                            let table1 = self.devices.table();
                            assert forall|t: int| 0 <= t < table0.len() implies ((
                            #[trigger] table1[t]).key == table0[t].key && (table1[t].scene
                                == table0[t].scene || (table1[t].scene matches Some(b) && has_key(
                                ids,
                                b.scene_id@,
                            )))) by {
                                lemma_project_keeps(
                                    Device {
                                        scene: Some(
                                            crate::device::SceneBinding {
                                                scene_id: d.scene_id,
                                                activation_id: old(self).devices.next_activation(),
                                            },
                                        ),
                                        ..table0[t]
                                    },
                                    self.scenes.flattened(),
                                );
                            }
                            lemma_pointwise_bindings(table0, table1, ids);
                        }
                        let mut effects: Vec<Effect> = Vec::new();
                        enqueue_all(&mut effects, events);
                        assert(effects@ =~= enqueued(events@));
                        Ok(effects)
                    },
                    Err(e) => Err(e),
                }
            },
            Action::CycleScenes(d) => {
                let nowrap = match d.nowrap {
                    Some(b) => b,
                    None => false,
                };
                let r = self.devices.cycle_scenes(
                    &d.scenes,
                    nowrap,
                    self.groups.get_flattened_groups(),
                    &d.device_keys,
                    &d.group_keys,
                    &self.scenes,
                );
                match r {
                    Ok(events) => {
                        proof {
                            let table1 = self.devices.table();
                            if d.scenes@.len() > 0 {
                                let next = next_position(
                                    active_from(
                                        table0,
                                        d.scenes@,
                                        d.device_keys,
                                        d.group_keys,
                                        self.groups.flattened(),
                                        self.scenes.flattened(),
                                        0,
                                    ),
                                    d.scenes@.len() as int,
                                    nowrap,
                                );
                                let id = d.scenes@[next].scene_id;
                                assert forall|t: int| 0 <= t < table0.len() implies ((
                                #[trigger] table1[t]).key == table0[t].key && (table1[t].scene
                                    == table0[t].scene || (table1[t].scene matches Some(b)
                                    && has_key(ids, b.scene_id@)))) by {
                                    lemma_project_keeps(
                                        Device {
                                            scene: Some(
                                                crate::device::SceneBinding {
                                                    scene_id: id,
                                                    activation_id: old(
                                                        self,
                                                    ).devices.next_activation(),
                                                },
                                            ),
                                            ..table0[t]
                                        },
                                        self.scenes.flattened(),
                                    );
                                }
                                lemma_pointwise_bindings(table0, table1, ids);
                            }
                        }
                        let mut effects: Vec<Effect> = Vec::new();
                        enqueue_all(&mut effects, events);
                        assert(effects@ =~= enqueued(events@));
                        Ok(effects)
                    },
                    Err(e) => Err(e),
                }
            },
            Action::Dim(d) => {
                let step = match d.step {
                    Some(s) => s,
                    None => DEFAULT_DIM_STEP,
                };
                let r = self.devices.dim(
                    &d.device_keys,
                    &d.group_keys,
                    step,
                    self.groups.get_flattened_groups(),
                );
                match r {
                    Ok(events) => {
                        proof {
                            lemma_pointwise_bindings(table0, self.devices.table(), ids);
                        }
                        let mut effects: Vec<Effect> = Vec::new();
                        enqueue_all(&mut effects, events);
                        assert(effects@ =~= enqueued(events@));
                        Ok(effects)
                    },
                    Err(e) => Err(e),
                }
            },
            Action::Custom(d) => {
                match self.integrations.run_integration_action(&d.integration_id, &d.payload) {
                    Ok(()) => Ok(Vec::new()),
                    Err(e) => Err(e),
                }
            },
            Action::ForceTriggerRoutine(d) => {
                match rules.force_trigger_routine(&d.routine_id) {
                    Ok(events) => {
                        let mut effects: Vec<Effect> = Vec::new();
                        enqueue_all(&mut effects, events);
                        assert(effects@ =~= enqueued(events@));
                        Ok(effects)
                    },
                    Err(e) => Err(e),
                }
            },
            Action::SetDeviceState(device) => {
                let mut effects: Vec<Effect> = Vec::new();
                effects.push(
                    Effect::Enqueue(
                        Event::SetInternalState {
                            device: device.clone(),
                            skip_external_update: None,
                        },
                    ),
                );
                Ok(effects)
            },
            Action::ToggleDeviceOverride { device_keys, override_state } => {
                let mut effects: Vec<Effect> = Vec::new();
                let ghost ov0 = self.scenes.overrides();
                let mut i: usize = 0;
                let n = self.devices.get_state().len();
                while i < n
                    invariant
                        i <= n,
                        n == table0.len(),
                        table0 == self.devices.table(),
                        *self == (AppState { scenes: self.scenes, ..*old(self) }),
                        self.scenes.wf(),
                        self.scenes.all_scenes() == old(self).scenes.all_scenes(),
                        self.scenes.stored_count() == old(self).scenes.stored_count(),
                        self.scenes.overrides() == toggled_overrides(
                            ov0,
                            table0,
                            device_keys@,
                            *override_state,
                            i as int,
                        ),
                        effects@ == override_writes(
                            table0,
                            device_keys@,
                            *override_state,
                            i as int,
                        ),
                    decreases n - i,
                {
                    let d = &self.devices.get_state().0[i];
                    if contains_key(device_keys, &d.key) {
                        effects.push(
                            Effect::PersistSceneOverride {
                                key: d.key.clone(),
                                flag: *override_state,
                            },
                        );
                        self.scenes.store_scene_override(d, *override_state);
                    }
                    i += 1;
                }
                self.scenes.force_invalidate(
                    self.devices.get_state(),
                    self.groups.get_flattened_groups(),
                );
                let ghost writes = effects@;
                let events = self.devices.reproject_keys(device_keys, &self.scenes);
                proof {
                    let table1 = self.devices.table();
                    assert forall|t: int| 0 <= t < table0.len() implies ((
                    #[trigger] table1[t]).key == table0[t].key && table1[t].scene
                        == table0[t].scene) by {
                        lemma_project_keeps(table0[t], self.scenes.flattened());
                    }
                    lemma_pointwise_bindings(table0, table1, ids);
                }
                enqueue_all(&mut effects, events);
                let ghost pending = self.ws_broadcast_pending.pending;
                let mut timer = self.schedule_ws_broadcast();
                effects.append(&mut timer);
                assert(effects@ =~= writes + enqueued(events@) + schedule_effects(pending));
                Ok(effects)
            },
            Action::EvalExpr(expr) => {
                match eval_action_expr(expr, self.expr.get_context(), self.devices.get_state()) {
                    Ok(events) => {
                        let mut effects: Vec<Effect> = Vec::new();
                        enqueue_all(&mut effects, events);
                        assert(effects@ =~= enqueued(events@));
                        Ok(effects)
                    },
                    Err(_) => Err(HubError::Expression),
                }
            },
            Action::Ui(UiActionDescriptor::StoreUIState { key, value }) => {
                let entry = entry_of(key, value);
                self.ui.store_state(entry.key, entry.value);
                let mut effects: Vec<Effect> = Vec::new();
                effects.push(Effect::PersistUiState { key: key.clone() });
                let ghost pending = self.ws_broadcast_pending.pending;
                let mut timer = self.schedule_ws_broadcast();
                effects.append(&mut timer);
                assert(effects@ =~= seq![Effect::PersistUiState { key: *key }] + schedule_effects(
                    pending,
                ));
                Ok(effects)
            },
        }
    }
}

/// The mode the colour of a device goes out to its integration in, where
/// it has a colour and the integration can take one.
pub open spec fn out_mode(device: Device) -> Option<ColorMode> {
    match device.data {
        DeviceData::Managed(m) => match m.state.color {
            Some(c) => m.capabilities.spec_preferred_mode(c.spec_mode()),
            None => None,
        },
        DeviceData::Sensor(_) => None,
    }
}

/// What a report of an integration comes to.
pub open spec fn report_outcome(pre: AppState, device: Device, post: AppState, r: Result<
    Vec<Effect>,
    HubError,
>) -> bool {
    let current = device_at(pre.devices.table(), device.key@);
    let stored = reported(device, current, pre.scenes.flattened());
    &&& post == (AppState { devices: post.devices, ..pre })
    &&& post.devices.table() == table_after_set(pre.devices.table(), stored)
    &&& post.devices.next_activation() == pre.devices.next_activation()
    &&& r matches Ok(effects) && effects@ == enqueued(report_events(device, current, stored))
}

/// What the end of the startup comes to: groups and scenes are
/// materialized against the devices now known, the snapshot of the
/// expressions is taken anew, the hub is no longer warming up, and a
/// broadcast is asked for.
pub open spec fn startup_outcome(pre: AppState, post: AppState, r: Result<Vec<Effect>, HubError>) -> bool {
    let groups = flatten_groups(pre.groups.config(), pre.devices.table());
    &&& post == (AppState {
        warming_up: false,
        groups: post.groups,
        scenes: post.scenes,
        expr: post.expr,
        ws_broadcast_pending: BroadcastDebounce { pending: true },
        ..pre
    })
    &&& post.groups.config() == pre.groups.config()
    &&& post.groups.links() == pre.groups.links()
    &&& post.groups.flattened() == groups
    &&& post.scenes.all_scenes() == pre.scenes.all_scenes()
    &&& post.scenes.stored_count() == pre.scenes.stored_count()
    &&& post.scenes.overrides() == pre.scenes.overrides()
    &&& post.scenes.source() == (groups, pre.devices.table())
    &&& post.scenes.current()
    &&& post.expr.world() == (EvalWorld {
        devices: pre.devices.table(),
        groups,
        scenes: post.scenes.flattened(),
        now: pre.expr.world().now,
    })
    &&& r matches Ok(effects) && effects@ == schedule_effects(pre.ws_broadcast_pending.pending)
}

/// What a change of the device table comes to once the hub has warmed up:
/// groups and scenes are materialized anew, the devices bound to a scene
/// that no longer comes to what it did take the state it now holds for
/// them, the snapshot of the expressions is taken from the devices as they
/// then are, the routines whose condition has come true run, and a
/// broadcast is asked for.
pub open spec fn cascade_outcome(pre: AppState, post: AppState, r: Result<Vec<Effect>, HubError>) -> bool {
    let groups = flatten_groups(pre.groups.config(), pre.devices.table());
    let affected = changed_scenes(
        pre.scenes.flattened(),
        post.scenes.flattened(),
        post.scenes.flattened().len() as int,
    );
    &&& post == (AppState {
        groups: post.groups,
        scenes: post.scenes,
        devices: post.devices,
        expr: post.expr,
        rules: post.rules,
        ws_broadcast_pending: BroadcastDebounce { pending: true },
        ..pre
    })
    &&& post.groups.config() == pre.groups.config()
    &&& post.groups.links() == pre.groups.links()
    &&& post.groups.flattened() == groups
    &&& post.scenes.all_scenes() == pre.scenes.all_scenes()
    &&& post.scenes.stored_count() == pre.scenes.stored_count()
    &&& post.scenes.overrides() == pre.scenes.overrides()
    &&& post.scenes.source() == (groups, pre.devices.table())
    &&& post.scenes.current()
    &&& post.devices.next_activation() == pre.devices.next_activation()
    &&& post.devices.table() == reprojected_table(
        pre.devices.table(),
        affected,
        post.scenes.flattened(),
    )
    &&& post.expr.world() == (EvalWorld {
        devices: post.devices.table(),
        groups,
        scenes: post.scenes.flattened(),
        now: pre.expr.world().now,
    })
    &&& post.rules.routines() == pre.rules.routines()
    &&& post.rules.last_satisfied() == satisfied_flags(post.expr.world(), pre.rules.routines())
    &&& r matches Ok(effects) && effects@ == enqueued(
        table_events(pre.devices.table(), post.devices.table(), pre.devices.table().len() as int),
    ) + enqueued(
        fired_events(
            post.expr.world(),
            pre.rules.routines(),
            pre.rules.last_satisfied(),
            pre.rules.routines().len() as int,
        ),
    ) + schedule_effects(pre.ws_broadcast_pending.pending)
}

/// What a request to set a device comes to: the device is put in the
/// table, bound to its scene only where that scene is defined, and with the
/// state its scene holds for it. Where the device is pinned, the pin is
/// written to the store again and the scenes are flattened anew.
pub open spec fn set_internal_outcome(
    pre: AppState,
    device: Device,
    skip_external_update: Option<bool>,
    post: AppState,
    r: Result<Vec<Effect>, HubError>,
) -> bool {
    let pinned = has_key(key_views(pre.scenes.overrides()), device.key@);
    let placed = project(
        with_known_scene(device, scene_ids(pre.scenes.all_scenes())),
        post.scenes.flattened(),
    );
    let writes = if pinned {
        seq![Effect::PersistSceneOverride { key: device.key, flag: true }]
    } else {
        Seq::empty()
    };
    &&& post == (AppState { devices: post.devices, scenes: post.scenes, ..pre })
    &&& post.scenes.all_scenes() == pre.scenes.all_scenes()
    &&& post.scenes.stored_count() == pre.scenes.stored_count()
    &&& post.scenes.overrides() == pre.scenes.overrides()
    &&& if pinned {
        post.scenes.source() == (pre.groups.flattened(), pre.devices.table())
    } else {
        post.scenes.source() == pre.scenes.source() && post.scenes.flattened()
            == pre.scenes.flattened()
    }
    &&& post.scenes.current()
    &&& post.devices.next_activation() == pre.devices.next_activation()
    &&& post.devices.table() == table_after_set(pre.devices.table(), placed)
    &&& r matches Ok(effects) && effects@ == writes + enqueued(
        set_events(
            device_at(pre.devices.table(), device.key@),
            placed,
            skip_external_update == Some(true),
            true,
        ),
    )
}

/// What a change of the stored scenes comes to, given the stored scenes
/// after it and the write it leaves for the store: devices bound to a
/// scene that is no longer defined lose their binding, the scenes are
/// flattened anew, and a broadcast is asked for.
pub open spec fn store_change_outcome(
    pre: AppState,
    stored: Seq<Scene>,
    write: Effect,
    post: AppState,
    r: Result<Vec<Effect>, HubError>,
) -> bool {
    &&& post == (AppState {
        devices: post.devices,
        scenes: post.scenes,
        ws_broadcast_pending: BroadcastDebounce { pending: true },
        ..pre
    })
    &&& post.scenes.db_scenes() == stored
    &&& post.scenes.config_scenes() == pre.scenes.config_scenes()
    &&& post.scenes.overrides() == pre.scenes.overrides()
    &&& post.devices.next_activation() == pre.devices.next_activation()
    &&& post.devices.table() == known_scenes_table(
        pre.devices.table(),
        scene_ids(post.scenes.all_scenes()),
    )
    &&& post.scenes.source() == (pre.groups.flattened(), post.devices.table())
    &&& post.scenes.current()
    &&& r matches Ok(effects) && effects@ == seq![write] + schedule_effects(
        pre.ws_broadcast_pending.pending,
    )
}

/// What handling `event` comes to.
pub open spec fn event_outcome(pre: AppState, event: Event, post: AppState, r: Result<
    Vec<Effect>,
    HubError,
>) -> bool {
    match event {
        Event::ExternalStateUpdate { device } => report_outcome(pre, device, post, r),
        Event::StartupCompleted => startup_outcome(pre, post, r),
        Event::InternalStateUpdate { old, new } => if pre.warming_up {
            post == pre && (r matches Ok(effects) && effects@.len() == 0)
        } else {
            cascade_outcome(pre, post, r)
        },
        Event::SetInternalState { device, skip_external_update } => set_internal_outcome(
            pre,
            device,
            skip_external_update,
            post,
            r,
        ),
        Event::SetExternalState { device } => post == pre && match r {
            Ok(effects) => integration_index(
                pre.integrations.integrations(),
                device.key.integration_id@,
            ) is Some && effects@ == seq![
                Effect::SetIntegrationDeviceState { device, color_mode: out_mode(device) },
            ],
            Err(e) => integration_index(
                pre.integrations.integrations(),
                device.key.integration_id@,
            ) is None && e == HubError::UnknownIntegration(device.key.integration_id),
        },
        Event::DbStoreScene { scene_id, config } => store_change_outcome(
            pre,
            scenes_after_store(pre.scenes.db_scenes(), scene_id, config),
            Effect::PersistScene { scene_id },
            post,
            r,
        ),
        Event::DbDeleteScene { scene_id } => store_change_outcome(
            pre,
            scenes_after_delete(pre.scenes.db_scenes(), scene_id@),
            Effect::DeleteScene { scene_id },
            post,
            r,
        ),
        Event::DbEditScene { scene_id, name } => store_change_outcome(
            pre,
            scenes_after_rename(pre.scenes.db_scenes(), scene_id@, name),
            Effect::RenameScene { scene_id, name },
            post,
            r,
        ),
        Event::Action(action) => action_outcome(pre, pre.rules, action, post, r),
        Event::RoutineAction { routine_id, index } => match routine_index(
            pre.rules.routines(),
            routine_id@,
        ) {
            Some(i) => if index < pre.rules.routines()[i].on_true@.len() {
                action_outcome(
                    pre,
                    pre.rules,
                    pre.rules.routines()[i].on_true@[index as int],
                    post,
                    r,
                )
            } else {
                post == pre && r == Err::<Vec<Effect>, HubError>(
                    HubError::UnknownRoutine(routine_id),
                )
            },
            None => post == pre && r == Err::<Vec<Effect>, HubError>(
                HubError::UnknownRoutine(routine_id),
            ),
        },
        Event::BroadcastDue => {
            &&& post == (AppState {
                ws_broadcast_pending: BroadcastDebounce { pending: false },
                ..pre
            })
            &&& r matches Ok(effects) && effects@ == if pre.ws.users().len() == 0 {
                Seq::<Effect>::empty()
            } else {
                seq![Effect::Broadcast]
            }
        },
    }
}

/// The bindings of a table stay known where no id is taken away.
proof fn lemma_bindings_with_more(devices: Seq<Device>, before: Seq<Scene>, after: Seq<Scene>)
    requires
        bindings_known(devices, scene_ids(before)),
        crate::scenes::ids_kept(before, after),
    ensures
        bindings_known(devices, scene_ids(after)),
        known_scenes_table(devices, scene_ids(after)) == devices,
{
    assert forall|t: int| 0 <= t < devices.len() implies ((#[trigger] devices[t]).scene matches Some(
        b,
    ) ==> has_key(scene_ids(after), b.scene_id@)) by {
        match devices[t].scene {
            Some(b) => {
                assert(has_key(scene_ids(before), b.scene_id@));
            },
            None => {},
        }
    }
    assert(known_scenes_table(devices, scene_ids(after)) =~= devices);
}

/// Handles `event`: changes the state as the event asks and returns what
/// is left to be carried out, in order. Where the event is refused nothing
/// has changed.
pub fn handle_event(state: &mut AppState, event: Event) -> (r: Result<Vec<Effect>, HubError>)
    requires
        old(state).wf(),
    ensures
        final(state).wf(),
        event_outcome(*old(state), event, *final(state), r),
        keys_stable(old(state).devices.table(), final(state).devices.table()),
        old(state).warming_up && event is InternalStateUpdate ==> *final(state) == *old(state),
{
    let ghost ids = scene_ids(state.scenes.all_scenes());
    let ghost table0 = state.devices.table();
    match event {
        Event::ExternalStateUpdate { device } => {
            let events = state.devices.handle_external_state_update(&device, &state.scenes);
            proof {
                let current = device_at(table0, device.key@);
                let stored = reported(device, current, state.scenes.flattened());
                lemma_first_index(crate::device_table::device_keys(table0), device.key@, 0);
                match device.data {
                    DeviceData::Managed(m) => {
                        let key = match current {
                            Some(c) => c.key,
                            None => device.key,
                        };
                        let scene = match current {
                            Some(c) => c.scene,
                            None => None,
                        };
                        lemma_project_keeps(
                            Device {
                                key,
                                name: device.name,
                                data: DeviceData::Managed(
                                    crate::device::ManagedDevice {
                                        state: m.state,
                                        raw: Some(m.state),
                                        capabilities: m.capabilities,
                                    },
                                ),
                                scene,
                            },
                            state.scenes.flattened(),
                        );
                    },
                    DeviceData::Sensor(_) => {},
                }
                assert(stored.key@ == device.key@);
                lemma_set_keeps_keys(table0, stored);
                lemma_set_keeps_bindings(table0, stored, ids);
            }
            let mut effects: Vec<Effect> = Vec::new();
            enqueue_all(&mut effects, events);
            assert(effects@ =~= enqueued(events@));
            Ok(effects)
        },
        Event::StartupCompleted => {
            state.groups.force_invalidate(state.devices.get_state());
            state.expr.invalidate(
                state.devices.get_state(),
                state.groups.get_flattened_groups(),
                state.scenes.get_flattened_scenes(),
            );
            state.scenes.force_invalidate(
                state.devices.get_state(),
                state.groups.get_flattened_groups(),
            );
            state.expr.invalidate(
                state.devices.get_state(),
                state.groups.get_flattened_groups(),
                state.scenes.get_flattened_scenes(),
            );
            state.warming_up = false;
            let effects = state.schedule_ws_broadcast();
            Ok(effects)
        },
        Event::InternalStateUpdate { old: _, new: _ } => {
            if state.warming_up {
                return Ok(Vec::new());
            }
            let _ = state.groups.invalidate(state.devices.get_state());
            state.expr.invalidate(
                state.devices.get_state(),
                state.groups.get_flattened_groups(),
                state.scenes.get_flattened_scenes(),
            );
            let affected = state.scenes.invalidate(
                state.devices.get_state(),
                state.groups.get_flattened_groups(),
            );
            let changes = state.devices.invalidate(&affected, &state.scenes);
            proof {
                let table1 = state.devices.table();
                assert forall|t: int| 0 <= t < table0.len() implies ((#[trigger] table1[t]).key
                    == table0[t].key && table1[t].scene == table0[t].scene) by {
                    lemma_project_keeps(table0[t], state.scenes.flattened());
                }
                lemma_pointwise_bindings(table0, table1, ids);
            }
            state.expr.invalidate(
                state.devices.get_state(),
                state.groups.get_flattened_groups(),
                state.scenes.get_flattened_scenes(),
            );
            let fired = state.rules.handle_internal_state_update(state.expr.get_context());
            let mut effects: Vec<Effect> = Vec::new();
            enqueue_all(&mut effects, changes);
            enqueue_all(&mut effects, fired);
            let ghost pending = state.ws_broadcast_pending.pending;
            let mut timer = state.schedule_ws_broadcast();
            effects.append(&mut timer);
            assert(effects@ =~= enqueued(changes@) + enqueued(fired@) + schedule_effects(pending));
            Ok(effects)
        },
        Event::SetInternalState { device, skip_external_update } => {
            let mut effects: Vec<Effect> = Vec::new();
            if state.scenes.has_override(&device) {
                effects.push(Effect::PersistSceneOverride { key: device.key.clone(), flag: true });
                state.scenes.force_invalidate(
                    state.devices.get_state(),
                    state.groups.get_flattened_groups(),
                );
            }
            let ghost writes = effects@;
            let known = known_scene_device(&device, &state.scenes);
            let placed = project_device(&known, &state.scenes);
            let skip = match skip_external_update {
                Some(b) => b,
                None => false,
            };
            proof {
                lemma_project_keeps(known, state.scenes.flattened());
                lemma_set_keeps_keys(table0, placed);
                lemma_set_keeps_bindings(table0, placed, ids);
            }
            let events = state.devices.set_state(&placed, skip, true);
            enqueue_all(&mut effects, events);
            assert(effects@ =~= writes + enqueued(events@));
            Ok(effects)
        },
        Event::SetExternalState { device } => {
            if !state.integrations.has_integration(&device.key.integration_id) {
                return Err(HubError::UnknownIntegration(device.key.integration_id.clone()));
            }
            let color_mode = match device.data {
                DeviceData::Managed(m) => match m.state.color {
                    Some(c) => m.capabilities.preferred_mode(c.mode()),
                    None => None,
                },
                DeviceData::Sensor(_) => None,
            };
            let mut effects: Vec<Effect> = Vec::new();
            effects.push(Effect::SetIntegrationDeviceState { device, color_mode });
            Ok(effects)
        },
        Event::DbStoreScene { scene_id, config } => {
            let mut effects: Vec<Effect> = Vec::new();
            effects.push(Effect::PersistScene { scene_id: scene_id.clone() });
            let ghost all0 = state.scenes.all_scenes();
            state.scenes.store_db_scene(scene_id, config);
            proof {
                lemma_bindings_with_more(table0, all0, state.scenes.all_scenes());
            }
            state.devices.retain_known_scenes(&state.scenes);
            state.scenes.force_invalidate(
                state.devices.get_state(),
                state.groups.get_flattened_groups(),
            );
            let ghost pending = state.ws_broadcast_pending.pending;
            let ghost write = effects@;
            let mut timer = state.schedule_ws_broadcast();
            effects.append(&mut timer);
            assert(effects@ =~= write + schedule_effects(pending));
            Ok(effects)
        },
        Event::DbDeleteScene { scene_id } => {
            state.scenes.delete_db_scene(&scene_id);
            state.devices.retain_known_scenes(&state.scenes);
            state.scenes.force_invalidate(
                state.devices.get_state(),
                state.groups.get_flattened_groups(),
            );
            let mut effects: Vec<Effect> = Vec::new();
            effects.push(Effect::DeleteScene { scene_id });
            let ghost pending = state.ws_broadcast_pending.pending;
            let ghost write = effects@;
            let mut timer = state.schedule_ws_broadcast();
            effects.append(&mut timer);
            assert(effects@ =~= write + schedule_effects(pending));
            Ok(effects)
        },
        Event::DbEditScene { scene_id, name } => {
            let ghost all0 = state.scenes.all_scenes();
            state.scenes.rename_db_scene(&scene_id, name.clone());
            proof {
                lemma_bindings_with_more(table0, all0, state.scenes.all_scenes());
            }
            state.devices.retain_known_scenes(&state.scenes);
            state.scenes.force_invalidate(
                state.devices.get_state(),
                state.groups.get_flattened_groups(),
            );
            let mut effects: Vec<Effect> = Vec::new();
            effects.push(Effect::RenameScene { scene_id, name });
            let ghost pending = state.ws_broadcast_pending.pending;
            let ghost write = effects@;
            let mut timer = state.schedule_ws_broadcast();
            effects.append(&mut timer);
            assert(effects@ =~= write + schedule_effects(pending));
            Ok(effects)
        },
        Event::Action(action) => {
            let mut rules = Routines::empty();
            core::mem::swap(&mut rules, &mut state.rules);
            let r = state.apply_action(&rules, &action);
            state.rules = rules;
            r
        },
        Event::RoutineAction { routine_id, index } => {
            let mut rules = Routines::empty();
            core::mem::swap(&mut rules, &mut state.rules);
            let r = match rules.action_at(&routine_id, index) {
                Some(action) => state.apply_action(&rules, action),
                None => Err(HubError::UnknownRoutine(routine_id)),
            };
            state.rules = rules;
            r
        },
        Event::BroadcastDue => {
            state.ws_broadcast_pending.due();
            let mut effects: Vec<Effect> = Vec::new();
            if state.ws.num_users() > 0 {
                effects.push(Effect::Broadcast);
            }
            Ok(effects)
        },
    }
}

} // verus!

//! The state of the hub: every component in one place.

use vstd::prelude::*;

use crate::broadcast::{BroadcastDebounce, COALESCING_WINDOW_MS};
use crate::color::ColorMode;
use crate::device::Device;
use crate::device_table::DevicesState;
use crate::event::{Effect, Event};
use crate::expr::Evaluator;
use crate::groups::{FlattenedGroup, Groups};
use crate::devices::{bindings_known, Devices};
use crate::integrations_manager::IntegrationsManager;
use crate::routines::Routines;
use crate::scenes::{scene_ids, FlattenedScene, Scenes};
use crate::ui::{Ui, UiEntry};
use crate::websockets::{users_without, WebSockets};

verus! {

/// The state of the hub.
pub struct AppState {
    pub warming_up: bool,
    pub integrations: IntegrationsManager,
    pub groups: Groups,
    pub scenes: Scenes,
    pub devices: Devices,
    pub rules: Routines,
    pub expr: Evaluator,
    pub ws: WebSockets,
    pub ui: Ui,
    pub ws_broadcast_pending: BroadcastDebounce,
}

/// What clients are sent: the devices, the flattened scenes, the
/// materialized groups and the user-interface state, as the hub holds
/// them, and the mode every colour is to be sent in.
pub struct StateUpdate<'a> {
    pub devices: &'a DevicesState,
    pub scenes: &'a Vec<FlattenedScene>,
    pub groups: &'a Vec<FlattenedGroup>,
    pub ui_state: &'a Vec<UiEntry>,
    pub color_mode: ColorMode,
}

/// What asking for a broadcast leaves to be done: the start of the timer,
/// unless a broadcast is pending already.
pub open spec fn schedule_effects(pending: bool) -> Seq<Effect> {
    if pending {
        Seq::empty()
    } else {
        seq![Effect::StartBroadcastTimer { delay_ms: COALESCING_WINDOW_MS }]
    }
}

/// How many timers `n` requests for a broadcast in a row start, when the
/// flag was `pending` before the first: each request leaves the flag set
/// for those that follow.
pub open spec fn timers_started(pending: bool, n: nat) -> nat
    decreases n,
{
    if n == 0 {
        0
    } else {
        schedule_effects(pending).len() + timers_started(true, (n - 1) as nat)
    }
}

/// Requests that find a broadcast pending start no timer.
pub proof fn pending_starts_no_timer(n: nat)
    ensures
        timers_started(true, n) == 0,
    decreases n,
{
    if n > 0 {
        pending_starts_no_timer((n - 1) as nat);
    }
}

/// However many requests for a broadcast come while none is pending, one
/// or more, they start one timer between them.
pub proof fn burst_starts_one_timer(n: nat)
    requires
        n >= 1,
    ensures
        timers_started(false, n) == 1,
{
    pending_starts_no_timer((n - 1) as nat);
}

/// The effects that put `events` on the bus, in order.
pub open spec fn enqueued(events: Seq<Event>) -> Seq<Effect> {
    Seq::new(events.len(), |i: int| Effect::Enqueue(events[i]))
}

/// Adds to `effects` those that put `events` on the bus.
pub fn enqueue_all(effects: &mut Vec<Effect>, events: Vec<Event>)
    ensures
        final(effects)@ == old(effects)@ + enqueued(events@),
{
    let ghost all = events@;
    let ghost before = effects@;
    let mut events = events;
    let mut reversed: Vec<Event> = Vec::new();
    while events.len() > 0
        invariant
            events@.len() + reversed@.len() == all.len(),
            events@ == all.take(events@.len() as int),
            forall|t: int|
                0 <= t < reversed@.len() ==> (#[trigger] reversed@[t]) == all[all.len() - 1 - t],
        decreases events@.len(),
    {
        let ghost n = events@.len();
        match events.pop() {
            Some(e) => {
                reversed.push(e);
            },
            None => {},
        }
        assert(events@ =~= all.take(n - 1));
    }
    let mut i: usize = 0;
    let n = reversed.len();
    while reversed.len() > 0
        invariant
            n == all.len(),
            i + reversed@.len() == n,
            forall|t: int|
                0 <= t < reversed@.len() ==> (#[trigger] reversed@[t]) == all[all.len() - 1 - t],
            effects@.len() == before.len() + i,
            forall|t: int| 0 <= t < before.len() ==> effects@[t] == before[t],
            forall|t: int| 0 <= t < i ==> effects@[before.len() + t] == Effect::Enqueue(all[t]),
        decreases reversed@.len(),
    {
        match reversed.pop() {
            Some(e) => {
                effects.push(Effect::Enqueue(e));
            },
            None => {},
        }
        i += 1;
    }
    assert(effects@ =~= before + enqueued(all));
}

impl AppState {
    /// Every component is well formed, every scene binding names a scene
    /// that is defined, and the flattened scenes are what the scenes come
    /// to.
    pub open spec fn wf(&self) -> bool {
        &&& self.devices.wf()
        &&& self.groups.wf()
        &&& self.scenes.wf()
        &&& self.scenes.current()
        &&& self.rules.wf()
        &&& self.ws.wf()
        &&& bindings_known(self.devices.table(), scene_ids(self.scenes.all_scenes()))
    }

    /// The state of a hub that is warming up: no device is known yet and
    /// no client connected.
    pub fn new(integrations: IntegrationsManager, groups: Groups, scenes: Scenes, rules: Routines) -> (r:
        AppState)
        requires
            groups.wf(),
            scenes.wf(),
            scenes.current(),
            rules.wf(),
        ensures
            r.wf(),
            r.warming_up,
            r.integrations == integrations,
            r.groups == groups,
            r.scenes == scenes,
            r.rules == rules,
            r.devices.table() == Seq::<Device>::empty(),
            r.ws.users().len() == 0,
            r.ui.entries().len() == 0,
            r.expr.world() == (crate::expr::EvalWorld {
                devices: Seq::<Device>::empty(),
                groups: Seq::<crate::groups::FlatGroup>::empty(),
                scenes: Seq::<crate::scenes::FlatScene>::empty(),
                now: 0,
            }),
            !r.ws_broadcast_pending.pending,
    {
        AppState {
            warming_up: true,
            integrations,
            groups,
            scenes,
            devices: Devices::new(),
            rules,
            expr: Evaluator::new(),
            ws: WebSockets::new(),
            ui: Ui::new(),
            ws_broadcast_pending: BroadcastDebounce::new(),
        }
    }

    /// Asks for a broadcast of the state: starts the timer of the
    /// coalescing window unless a broadcast is pending already.
    pub fn schedule_ws_broadcast(&mut self) -> (effects: Vec<Effect>)
        ensures
            *final(self) == (AppState {
                ws_broadcast_pending: BroadcastDebounce { pending: true },
                ..*old(self)
            }),
            effects@ == schedule_effects(old(self).ws_broadcast_pending.pending),
    {
        let mut effects: Vec<Effect> = Vec::new();
        if self.ws_broadcast_pending.request() {
            effects.push(Effect::StartBroadcastTimer { delay_ms: COALESCING_WINDOW_MS });
        }
        effects
    }

    /// Whether there is anyone to send the state to: a named client
    /// always, all clients only where one is connected.
    pub fn should_send_state(&self, user_id: Option<usize>) -> (b: bool)
        ensures
            b == (user_id is Some || self.ws.users().len() > 0),
    {
        match user_id {
            Some(_) => true,
            None => self.ws.num_users() > 0,
        }
    }

    /// What clients are sent.
    pub fn state_update(&self) -> (r: StateUpdate<'_>)
        ensures
            r.devices@ == self.devices.table(),
            crate::scenes::flat_scenes(r.scenes@) == self.scenes.flattened(),
            crate::groups::flat_groups(r.groups@) == self.groups.flattened(),
            r.ui_state@ == self.ui.entries(),
            r.color_mode == ColorMode::Hs,
    {
        StateUpdate {
            devices: self.devices.get_state(),
            scenes: self.scenes.get_flattened_scenes(),
            groups: self.groups.get_flattened_groups(),
            ui_state: self.ui.get_state(),
            color_mode: ColorMode::Hs,
        }
    }

    /// Sends the state, as the text `text`, to the client under `user_id`
    /// or, where none is named, to every client. With no client connected
    /// a send to all does nothing. A client whose queue does not take the
    /// frame at once is let go.
    pub fn send_state_ws(&mut self, user_id: Option<usize>, text: &str)
        requires
            old(self).ws.wf(),
        ensures
            final(self).ws.wf(),
            *final(self) == (AppState { ws: final(self).ws, ..*old(self) }),
            match user_id {
                Some(id) => final(self).ws.users() == old(self).ws.users() || final(self).ws.users()
                    == users_without(old(self).ws.users(), id),
                None => exists|delivered: Seq<bool>|
                    delivered.len() == old(self).ws.users().len()
                        && #[trigger] crate::websockets::users_kept(
                        old(self).ws.users(),
                        delivered,
                        delivered.len() as int,
                    ) == final(self).ws.users(),
            },
            old(self).ws.users().len() == 0 ==> final(self).ws.users() == old(self).ws.users(),
    {
        if !self.should_send_state(user_id) {
            proof {
                let delivered = Seq::<bool>::empty();
                assert(crate::websockets::users_kept(
                    self.ws.users(),
                    delivered,
                    delivered.len() as int,
                ) =~= self.ws.users());
            }
            return ;
        }
        let _ = self.ws.send(user_id, text);
    }
}

impl AppState {
    /// Puts `snapshot` in the place of the stored scenes: devices bound to
    /// a scene that is no longer defined lose their binding, the scenes are
    /// flattened anew, and a broadcast is asked for.
    pub fn refresh_db_scenes(&mut self, snapshot: Vec<crate::scene::Scene>) -> (effects: Vec<Effect>)
        requires
            old(self).wf(),
        ensures
            final(self).wf(),
            *final(self) == (AppState {
                devices: final(self).devices,
                scenes: final(self).scenes,
                ws_broadcast_pending: BroadcastDebounce { pending: true },
                ..*old(self)
            }),
            final(self).scenes.db_scenes() == snapshot@,
            final(self).scenes.config_scenes() == old(self).scenes.config_scenes(),
            final(self).scenes.overrides() == old(self).scenes.overrides(),
            final(self).devices.next_activation() == old(self).devices.next_activation(),
            final(self).devices.table() == crate::devices::known_scenes_table(
                old(self).devices.table(),
                scene_ids(final(self).scenes.all_scenes()),
            ),
            final(self).scenes.source() == (
                old(self).groups.flattened(),
                final(self).devices.table(),
            ),
            effects@ == schedule_effects(old(self).ws_broadcast_pending.pending),
    {
        self.scenes.refresh_db_scenes(snapshot);
        self.devices.retain_known_scenes(&self.scenes);
        self.scenes.force_invalidate(
            self.devices.get_state(),
            self.groups.get_flattened_groups(),
        );
        self.schedule_ws_broadcast()
    }
}

} // verus!

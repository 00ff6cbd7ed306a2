//! A virtual light whose colour follows the time of day: the day colour by
//! day, the night colour by night, and a fade between them at dawn and at
//! dusk.
//!
//! The library says how far the fade has gone. Mixing the two colours is
//! floating-point work and is left to the program around it, which hands
//! the mixed colour back.

use vstd::prelude::*;

use crate::color::{Capabilities, DeviceColor};
use crate::device::{Device, DeviceData, DeviceKey, DeviceState, ManagedDevice, BRIGHTNESS_MAX};
use crate::event::Event;

verus! {

/// Milliseconds in an hour.
pub const MS_PER_HOUR: i64 = 3_600_000;

/// Milliseconds in a day.
pub const MS_PER_DAY: i64 = 86_400_000;

/// The longest fade, in hours, that can be expressed in milliseconds.
pub const MAX_FADE_HOURS: i64 = 2_562_047_788_015;

/// How often the colour is looked at again, in milliseconds.
pub const POLL_RATE_MS: u64 = 60_000;

/// The configuration of a circadian light. Times are milliseconds since
/// midnight.
#[derive(Debug, PartialEq, Eq)]
pub struct CircadianConfig {
    pub device_name: String,
    pub day_fade_start: u32,
    pub day_fade_duration_hours: i64,
    pub day_color: DeviceColor,
    pub night_fade_start: u32,
    pub night_fade_duration_hours: i64,
    pub night_color: DeviceColor,
}

impl CircadianConfig {
    /// The times are times of day and the fades can be expressed in
    /// milliseconds.
    pub open spec fn wf(self) -> bool {
        &&& self.day_fade_start < MS_PER_DAY
        &&& self.night_fade_start < MS_PER_DAY
        &&& -MAX_FADE_HOURS <= self.day_fade_duration_hours <= MAX_FADE_HOURS
        &&& -MAX_FADE_HOURS <= self.night_fade_duration_hours <= MAX_FADE_HOURS
    }

    /// Whether the configuration is well formed.
    pub fn is_valid(&self) -> (b: bool)
        ensures
            b == self.wf(),
    {
        (self.day_fade_start as i64) < MS_PER_DAY && (self.night_fade_start as i64) < MS_PER_DAY
            && -MAX_FADE_HOURS <= self.day_fade_duration_hours && self.day_fade_duration_hours
            <= MAX_FADE_HOURS && -MAX_FADE_HOURS <= self.night_fade_duration_hours
            && self.night_fade_duration_hours <= MAX_FADE_HOURS
    }
}

/// How far night has fallen, as the parts of a fraction: `elapsed_ms` of
/// `duration_ms`, or, `toward_day`, what is left of one when that fraction
/// is taken away. One is night, nought is day.
#[derive(Clone, Copy, Debug, PartialEq, Eq, Structural)]
pub struct NightFade {
    pub elapsed_ms: i64,
    pub duration_ms: i64,
    pub toward_day: bool,
}

/// The time of day `hours` hours after `time`, on a clock of 24 hours.
pub open spec fn clock_add(time: int, hours: int) -> int {
    (time + (hours % 24) * MS_PER_HOUR) % (MS_PER_DAY as int)
}

/// How far night has fallen at `now`.
///
/// It is night up to the start of the day fade and from the end of the
/// night fade on; it is day from the end of the day fade to the start of
/// the night fade; in between, the fade is as far as the time elapsed since
/// its start.
pub open spec fn night_fade(config: CircadianConfig, now: u32) -> NightFade {
    let day_end = clock_add(config.day_fade_start as int, config.day_fade_duration_hours as int);
    let night_end = clock_add(
        config.night_fade_start as int,
        config.night_fade_duration_hours as int,
    );
    if now <= config.day_fade_start || now >= night_end {
        NightFade { elapsed_ms: 1, duration_ms: 1, toward_day: false }
    } else if now >= day_end && now <= config.night_fade_start {
        NightFade { elapsed_ms: 0, duration_ms: 1, toward_day: false }
    } else if now < day_end {
        NightFade {
            elapsed_ms: (now - config.day_fade_start) as i64,
            duration_ms: (config.day_fade_duration_hours * MS_PER_HOUR) as i64,
            toward_day: true,
        }
    } else {
        NightFade {
            elapsed_ms: (now - config.night_fade_start) as i64,
            duration_ms: (config.night_fade_duration_hours * MS_PER_HOUR) as i64,
            toward_day: false,
        }
    }
}

/// The time of day `hours` hours after `time`.
fn add_hours(time: u32, hours: i64) -> (r: i64)
    requires
        time < MS_PER_DAY,
        -MAX_FADE_HOURS <= hours <= MAX_FADE_HOURS,
    ensures
        r == clock_add(time as int, hours as int),
        0 <= r < MS_PER_DAY,
{
    let h: i64 = if hours >= 0 {
        hours % 24
    } else {
        let m: i64 = (-hours) % 24;
        if m == 0 {
            0
        } else {
            24 - m
        }
    };
    assert(h == (hours as int) % 24) by {
        if hours < 0 {
            let m = (-(hours as int)) % 24;
            let q = (-(hours as int)) / 24;
            assert(-(hours as int) == 24 * q + m) by {
                vstd::arithmetic::div_mod::lemma_fundamental_div_mod(-(hours as int), 24);
            }
            if m == 0 {
                assert(hours as int == 24 * (-q) + 0);
                vstd::arithmetic::div_mod::lemma_fundamental_div_mod_converse(
                    hours as int,
                    24,
                    -q,
                    0,
                );
            } else {
                assert(hours as int == 24 * (-q - 1) + (24 - m));
                vstd::arithmetic::div_mod::lemma_fundamental_div_mod_converse(
                    hours as int,
                    24,
                    -q - 1,
                    24 - m,
                );
            }
        }
    }
    (time as i64 + h * MS_PER_HOUR) % MS_PER_DAY
}

/// How far night has fallen at `now`, a time of day in milliseconds since
/// midnight.
pub fn get_night_fade(config: &CircadianConfig, now: u32) -> (fade: NightFade)
    requires
        config.wf(),
        now < MS_PER_DAY,
    ensures
        fade == night_fade(*config, now),
        fade.duration_ms != 0,
{
    let day_end = add_hours(config.day_fade_start, config.day_fade_duration_hours);
    let night_end = add_hours(config.night_fade_start, config.night_fade_duration_hours);
    if now <= config.day_fade_start || now as i64 >= night_end {
        NightFade { elapsed_ms: 1, duration_ms: 1, toward_day: false }
    } else if now as i64 >= day_end && now <= config.night_fade_start {
        NightFade { elapsed_ms: 0, duration_ms: 1, toward_day: false }
    } else if (now as i64) < day_end {
        assert(config.day_fade_duration_hours != 0) by {
            if config.day_fade_duration_hours == 0 {
                assert(clock_add(config.day_fade_start as int, 0) == config.day_fade_start);
            }
        }
        assert(config.day_fade_duration_hours * MS_PER_HOUR != 0) by (nonlinear_arith)
            requires
                config.day_fade_duration_hours != 0,
        ;
        assert(-MAX_FADE_HOURS * MS_PER_HOUR <= config.day_fade_duration_hours * MS_PER_HOUR
            <= MAX_FADE_HOURS * MS_PER_HOUR) by (nonlinear_arith)
            requires
                -MAX_FADE_HOURS <= config.day_fade_duration_hours <= MAX_FADE_HOURS,
        ;
        NightFade {
            elapsed_ms: now as i64 - config.day_fade_start as i64,
            duration_ms: config.day_fade_duration_hours * MS_PER_HOUR,
            toward_day: true,
        }
    } else {
        assert(config.night_fade_duration_hours != 0) by {
            if config.night_fade_duration_hours == 0 {
                assert(clock_add(config.night_fade_start as int, 0) == config.night_fade_start);
            }
        }
        assert(config.night_fade_duration_hours * MS_PER_HOUR != 0) by (nonlinear_arith)
            requires
                config.night_fade_duration_hours != 0,
        ;
        assert(-MAX_FADE_HOURS * MS_PER_HOUR <= config.night_fade_duration_hours * MS_PER_HOUR
            <= MAX_FADE_HOURS * MS_PER_HOUR) by (nonlinear_arith)
            requires
                -MAX_FADE_HOURS <= config.night_fade_duration_hours <= MAX_FADE_HOURS,
        ;
        NightFade {
            elapsed_ms: now as i64 - config.night_fade_start as i64,
            duration_ms: config.night_fade_duration_hours * MS_PER_HOUR,
            toward_day: false,
        }
    }
}

/// A circadian light.
#[derive(Debug, PartialEq, Eq)]
pub struct Circadian {
    pub id: String,
    pub config: CircadianConfig,
    /// The colour as last mixed, if it was.
    pub color: Option<DeviceColor>,
}

/// Whether `d` is the device the circadian light `id` shows itself as:
/// called "color", switched on, at full brightness, in the colour given,
/// bound to no scene.
pub open spec fn is_circadian_device(d: Device, id: String, config: CircadianConfig, color: Option<DeviceColor>) -> bool {
    &&& d.key.integration_id == id
    &&& d.key.device_id@ == "color"@
    &&& d.name == config.device_name
    &&& d.data == DeviceData::Managed(
        ManagedDevice {
            state: DeviceState {
                power: true,
                brightness: Some(BRIGHTNESS_MAX),
                color,
                transition_ms: None,
            },
            raw: None,
            capabilities: Capabilities::spec_none(),
        },
    )
    &&& d.scene is None
}

/// The device a circadian light shows itself as.
pub fn mk_circadian_device(circadian: &Circadian) -> (d: Device)
    ensures
        is_circadian_device(d, circadian.id, circadian.config, circadian.color),
{
    let state = DeviceState {
        power: true,
        brightness: Some(BRIGHTNESS_MAX),
        color: circadian.color,
        transition_ms: None,
    };
    Device {
        key: DeviceKey { integration_id: circadian.id.clone(), device_id: "color".to_owned() },
        name: circadian.config.device_name.clone(),
        data: DeviceData::Managed(
            ManagedDevice { state, raw: None, capabilities: Capabilities::none() },
        ),
        scene: None,
    }
}

impl Circadian {
    /// A circadian light whose colour has not been mixed yet.
    pub fn new(id: &String, config: CircadianConfig) -> (r: Circadian)
        ensures
            r.id == *id,
            r.config == config,
            r.color is None,
    {
        Circadian { id: id.clone(), config, color: None }
    }

    /// Takes the colour mixed for the present time of day.
    pub fn set_color(&mut self, color: DeviceColor)
        ensures
            final(self).id == old(self).id,
            final(self).config == old(self).config,
            final(self).color == Some(color),
    {
        self.color = Some(color);
    }

    /// Announces the light: a report of its device.
    pub fn register(&self) -> (event: Event)
        ensures
            event matches Event::ExternalStateUpdate { device } && is_circadian_device(
                device,
                self.id,
                self.config,
                self.color,
            ),
    {
        Event::ExternalStateUpdate { device: mk_circadian_device(self) }
    }

    /// Starting the light asks for its colour to be looked at again every
    /// `POLL_RATE_MS` milliseconds.
    pub fn start(&self) -> (poll_rate_ms: u64)
        ensures
            poll_rate_ms == POLL_RATE_MS,
    {
        POLL_RATE_MS
    }

    /// What the light sends each time its colour is looked at: a request
    /// to set its device.
    pub fn poll(&self) -> (event: Event)
        ensures
            event matches Event::SetInternalState { device, skip_external_update }
                && skip_external_update is None && is_circadian_device(
                device,
                self.id,
                self.config,
                self.color,
            ),
    {
        Event::SetInternalState { device: mk_circadian_device(self), skip_external_update: None }
    }

    /// The light takes no state from outside: the device is ignored.
    pub fn set_integration_device_state(&mut self, device: &Device)
        ensures
            *final(self) == *old(self),
    {
    }

    /// The light knows no action: the payload is ignored.
    pub fn run_integration_action(&mut self, payload: &serde_json::Value)
        ensures
            *final(self) == *old(self),
    {
    }
}

} // verus!

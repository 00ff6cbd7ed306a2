//! Colour modes of a light and the choice of the mode a device is driven in.
//!
//! Colours are carried as integers. Turning a colour from one mode into
//! another is floating-point work and is done by the program around this
//! library; the library decides which mode is wanted.

use vstd::prelude::*;

verus! {

/// The ways a colour can be expressed.
#[derive(Clone, Copy, Debug, PartialEq, Eq, Structural)]
pub enum ColorMode {
    Hs,
    Xy,
    Ct,
    Rgb,
}

/// A colour in one of the four modes.
///
/// `Hs`: hue in degrees, saturation in thousandths. `Xy`: CIE coordinates in
/// ten-thousandths. `Ct`: colour temperature in kelvin. `Rgb`: eight bits per
/// channel.
#[derive(Clone, Copy, Debug, PartialEq, Eq, Structural)]
pub enum DeviceColor {
    Hs { h: u16, s: u16 },
    Xy { x: u16, y: u16 },
    Ct { ct: u16 },
    Rgb { r: u8, g: u8, b: u8 },
}

impl DeviceColor {
    pub open spec fn spec_mode(self) -> ColorMode {
        match self {
            DeviceColor::Hs { .. } => ColorMode::Hs,
            DeviceColor::Xy { .. } => ColorMode::Xy,
            DeviceColor::Ct { .. } => ColorMode::Ct,
            DeviceColor::Rgb { .. } => ColorMode::Rgb,
        }
    }

    /// The mode this colour is expressed in.
    pub fn mode(&self) -> (m: ColorMode)
        ensures
            m == self.spec_mode(),
    {
        match self {
            DeviceColor::Hs { .. } => ColorMode::Hs,
            DeviceColor::Xy { .. } => ColorMode::Xy,
            DeviceColor::Ct { .. } => ColorMode::Ct,
            DeviceColor::Rgb { .. } => ColorMode::Rgb,
        }
    }
}

/// A range of colour temperatures in kelvin, both ends included.
#[derive(Clone, Copy, Debug, PartialEq, Eq, Structural)]
pub struct CtRange {
    pub min: u16,
    pub max: u16,
}

/// The colour modes an integration has reported for a device.
#[derive(Clone, Copy, Debug, PartialEq, Eq, Structural)]
pub struct Capabilities {
    pub xy: bool,
    pub hs: bool,
    pub rgb: bool,
    /// Supported colour-temperature range, if any.
    pub ct: Option<CtRange>,
}

impl Capabilities {
    /// No colour mode at all.
    pub open spec fn spec_none() -> Capabilities {
        Capabilities { xy: false, hs: false, rgb: false, ct: None }
    }

    pub fn none() -> (c: Capabilities)
        ensures
            c == Self::spec_none(),
    {
        Capabilities { xy: false, hs: false, rgb: false, ct: None }
    }

    pub open spec fn spec_supports(self, mode: ColorMode) -> bool {
        match mode {
            ColorMode::Xy => self.xy,
            ColorMode::Hs => self.hs,
            ColorMode::Rgb => self.rgb,
            ColorMode::Ct => self.ct is Some,
        }
    }

    /// Whether the device can be driven in `mode`.
    pub fn supports(&self, mode: ColorMode) -> (b: bool)
        ensures
            b == self.spec_supports(mode),
    {
        match mode {
            ColorMode::Xy => self.xy,
            ColorMode::Hs => self.hs,
            ColorMode::Rgb => self.rgb,
            ColorMode::Ct => self.ct.is_some(),
        }
    }

    /// The mode a colour given in `current` is sent out in: `current` itself
    /// where the device supports it, else the first supported of Xy, Hs, Rgb,
    /// Ct, and `None` where the device supports no colour.
    pub open spec fn spec_preferred_mode(self, current: ColorMode) -> Option<ColorMode> {
        if self.spec_supports(current) {
            Some(current)
        } else if self.xy {
            Some(ColorMode::Xy)
        } else if self.hs {
            Some(ColorMode::Hs)
        } else if self.rgb {
            Some(ColorMode::Rgb)
        } else if self.ct is Some {
            Some(ColorMode::Ct)
        } else {
            None
        }
    }

    pub fn preferred_mode(&self, current: ColorMode) -> (m: Option<ColorMode>)
        ensures
            m == self.spec_preferred_mode(current),
    {
        if self.supports(current) {
            Some(current)
        } else if self.xy {
            Some(ColorMode::Xy)
        } else if self.hs {
            Some(ColorMode::Hs)
        } else if self.rgb {
            Some(ColorMode::Rgb)
        } else if self.ct.is_some() {
            Some(ColorMode::Ct)
        } else {
            None
        }
    }
}

/// Whatever the capabilities, a preferred mode is one the device supports.
pub proof fn preferred_mode_is_supported(c: Capabilities, current: ColorMode)
    ensures
        c.spec_preferred_mode(current) matches Some(m) ==> c.spec_supports(m),
        c.spec_supports(current) ==> c.spec_preferred_mode(current) == Some(current),
{
}

} // verus!

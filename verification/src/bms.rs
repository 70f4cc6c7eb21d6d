//! The battery management system of a board: its pin, its divider and its
//! battery, named in types.

use crate::divider::ConfigError;
use crate::divider::DividerRatio;
use crate::divider::Resistors;
use crate::rational::Rational;
use crate::reader::charge_state;
use crate::reader::checked_measured;
use crate::reader::BatteryVoltageReader;
use crate::reader::ChargeState;
use crate::reader::ReadError;
use crate::reader::SourcePoll;
use core::marker::PhantomData;
use core::ops::Div;
use vstd::prelude::*;
use vstd::std_specs::ops::DivSpecImpl;

mod mode;

verus! {

/// The voltage that a pin works at: 3.3 V, 5 V.
#[allow(private_bounds)]
pub trait VMode: mode::Sealed {

}

/// A pin at 3.3 V, as on RP Pico or ESP boards.
pub struct Voltage3v3;

/// A pin at 5 V, as on Arduino boards.
pub struct Voltage5v;

impl mode::Sealed for Voltage3v3 {

}

impl VMode for Voltage3v3 {

}

impl mode::Sealed for Voltage5v {

}

impl VMode for Voltage5v {

}

/// The 5 V family, as a value.
pub const V5V: Voltage5v = Voltage5v;

/// The GPIO pin number `PIN`, working at `VMODE`.
pub struct Pin<const PIN: u8, VMODE: VMode>(PhantomData<VMODE>);

impl<const PIN: u8, VMODE: VMode> Pin<PIN, VMODE> {
    /// The pin. The type carries the number and the voltage, the value
    /// carries nothing: every `Pin<PIN, VMODE>` is this one value.
    pub fn new() -> Self {
        Pin(PhantomData)
    }
}

/// The resistor pair of a board, named in a type: `R1` ohms towards ground,
/// `R2` ohms towards the source.
pub struct Divider<const R1: usize, const R2: usize>;

impl<const R1: usize, const R2: usize> Divider<R1, R2> {
    /// The divider that the type names, checked: a pair of zero resistances
    /// is rejected.
    pub fn checked(&self) -> (r: Result<DividerRatio, ConfigError>)
        ensures
            R1 + R2 == 0 ==> r == Err::<DividerRatio, ConfigError>(ConfigError::InvalidDivider),
            R1 + R2 > 0 ==> r is Ok && r->Ok_0@ == (Resistors { r1: R1 as nat, r2: R2 as nat }),
    {
        DividerRatio::new(R1 as u64, R2 as u64)
    }
}

/// The thresholds of a battery, named in a type: cut off at `CUT_OFF_MV`
/// millivolts, charged at `CHARGED_MV` millivolts.
pub struct CBattery<const CUT_OFF_MV: usize, const CHARGED_MV: usize>;

impl<const CUT_OFF_MV: usize, const CHARGED_MV: usize> CBattery<CUT_OFF_MV, CHARGED_MV> {
    /// The band that `voltage_mv` falls in: `Cutoff` at or below
    /// `CUT_OFF_MV`, `Charged` at or above `CHARGED_MV`, `Nominal` otherwise.
    pub fn classify(&self, voltage_mv: u64) -> (state: ChargeState)
        ensures
            state == charge_state(Some(CUT_OFF_MV as u64), Some(CHARGED_MV as u64), voltage_mv),
    {
        if voltage_mv <= CUT_OFF_MV as u64 {
            ChargeState::Cutoff
        } else if voltage_mv >= CHARGED_MV as u64 {
            ChargeState::Charged
        } else {
            ChargeState::Nominal
        }
    }
}

/// A voltage divider with its resistances baked into the type: `R2` ohms
/// towards the positive side, `R1` ohms towards ground.
#[derive(Debug, Clone, Copy)]
pub struct VoltageDivider<const R1: usize, const R2: usize>;

impl<const R1: usize, const R2: usize> View for VoltageDivider<R1, R2> {
    type V = Resistors;

    open spec fn view(&self) -> Resistors {
        Resistors { r1: R1 as nat, r2: R2 as nat }
    }
}

impl<const R1: usize, const R2: usize> VoltageDivider<R1, R2> {
    /// The divider as a value, for a type that names at least one resistor.
    pub fn divider_ratio(&self) -> (d: DividerRatio)
        requires
            self@.valid(),
        ensures
            d@ == self@,
            d.wf(),
    {
        DividerRatio::new(R1 as u64, R2 as u64).unwrap()
    }

    /// The fraction of the source voltage that reaches the tap point,
    /// `R2 / (R1 + R2)` in lowest terms.
    pub fn ratio(&self) -> (q: Rational)
        requires
            self@.valid(),
        ensures
            q@ == self@.ratio(),
            0 < q.numer <= q.denom,
    {
        self.divider_ratio().ratio()
    }
}

impl<const R1: usize, const R2: usize> DivSpecImpl<VoltageDivider<R1, R2>> for usize {
    open spec fn obeys_div_spec() -> bool {
        true
    }

    open spec fn div_req(self, rhs: VoltageDivider<R1, R2>) -> bool {
        rhs@.valid()
    }

    open spec fn div_spec(self, rhs: VoltageDivider<R1, R2>) -> usize {
        rhs@.tap_of(self as nat) as usize
    }
}

/// A source voltage in millivolts, put through the divider: the millivolts
/// at the tap point, rounded half up.
impl<const R1: usize, const R2: usize> Div<VoltageDivider<R1, R2>> for usize {
    type Output = usize;

    fn div(self, rhs: VoltageDivider<R1, R2>) -> (tap_mv: usize)
        ensures
            tap_mv == rhs@.tap_of(self as nat),
            tap_mv <= self,
    {
        rhs.divider_ratio().sample_from_source(self as u64) as usize
    }
}

/// The battery measurement of a board: pin 5 behind a divider of 500 kΩ
/// towards ground and 300 kΩ towards the battery.
pub struct MeasureBattery<VMODE: VMode> {
    pin: Pin<5, VMODE>,
    divider: VoltageDivider<500_000, 300_000>,
}

impl<VMODE: VMode> MeasureBattery<VMODE> {
    /// The measurement on `pin`. Pin and divider are fixed by their types,
    /// so there is one measurement for each `VMODE`, and this is it.
    pub fn new(pin: Pin<5, VMODE>) -> Self {
        MeasureBattery { pin, divider: VoltageDivider }
    }

    /// The resistors of the board's divider.
    pub open spec fn resistors() -> Resistors {
        Resistors { r1: 500_000, r2: 300_000 }
    }
}

impl MeasureBattery<Voltage3v3> {
    /// The battery voltage in millivolts for what one poll of the pin gave:
    /// the sample put back through the divider. A pin that is not ready
    /// gives `None`; a fault of the pin is passed on.
    pub fn checked_voltage(&self, polled: SourcePoll) -> (r: Result<Option<u64>, ReadError>)
        ensures
            r == checked_measured(Self::resistors(), polled),
    {
        let reader = BatteryVoltageReader::new(self.divider.divider_ratio(), None, None).unwrap();
        reader.checked_measure(polled)
    }
}

} // verus!

//! Reading a battery's voltage through a divider, and judging its charge.
//!
//! The raw-voltage source itself is hardware and lives with the caller: the
//! functions here take what one poll of it gave.

use crate::divider::ConfigError;
use crate::divider::DividerRatio;
use crate::divider::Resistors;
use vstd::prelude::*;

verus! {

/// An error code of the raw-voltage source. It is passed on as it came.
#[derive(Clone, Copy, Debug, PartialEq, Eq, Structural)]
pub struct ErrorCode(pub u32);

/// What one poll of the raw-voltage source gave.
#[derive(Clone, Copy, Debug, PartialEq, Eq, Structural)]
pub enum SourcePoll {
    /// A sample, in millivolts at the tap point.
    Ready(u64),
    /// No sample yet.
    NotReady,
    /// The hardware failed.
    Fault(ErrorCode),
}

/// Why a measurement gave no voltage.
#[derive(Clone, Copy, Debug, PartialEq, Eq, Structural)]
pub enum ReadError {
    /// The raw-voltage source failed with this code.
    Source(ErrorCode),
    /// The raw-voltage source had no sample yet.
    NotReady,
    /// The battery voltage does not fit in 64 bits.
    Overflow,
}

/// The band that a battery voltage falls in.
#[derive(Clone, Copy, Debug, PartialEq, Eq, Structural)]
pub enum ChargeState {
    /// At or below the cutoff threshold.
    Cutoff,
    /// Between the thresholds.
    Nominal,
    /// At or above the charged threshold.
    Charged,
}

/// The band of `voltage_mv`: `Cutoff` at or below `cutoff_mv`, `Charged` at
/// or above `charged_mv`, `Nominal` otherwise. A threshold that is absent
/// marks no band.
pub open spec fn charge_state(
    cutoff_mv: Option<u64>,
    charged_mv: Option<u64>,
    voltage_mv: u64,
) -> ChargeState {
    if cutoff_mv is Some && voltage_mv <= cutoff_mv->Some_0 {
        ChargeState::Cutoff
    } else if charged_mv is Some && voltage_mv >= charged_mv->Some_0 {
        ChargeState::Charged
    } else {
        ChargeState::Nominal
    }
}

/// The cutoff threshold lies below the charged threshold where both are
/// present.
pub open spec fn thresholds_valid(cutoff_mv: Option<u64>, charged_mv: Option<u64>) -> bool {
    cutoff_mv is Some && charged_mv is Some ==> cutoff_mv->Some_0 < charged_mv->Some_0
}

/// The battery voltage for what a poll gave, where a source that is not
/// ready counts as an error.
pub open spec fn measured(divider: Resistors, polled: SourcePoll) -> Result<u64, ReadError> {
    match polled {
        SourcePoll::Ready(sample_mv) => {
            if divider.source_of(sample_mv as nat) <= u64::MAX {
                Ok(divider.source_of(sample_mv as nat) as u64)
            } else {
                Err(ReadError::Overflow)
            }
        },
        SourcePoll::NotReady => Err(ReadError::NotReady),
        SourcePoll::Fault(code) => Err(ReadError::Source(code)),
    }
}

/// The battery voltage for what a poll gave, where a source that is not
/// ready gives `None`.
pub open spec fn checked_measured(
    divider: Resistors,
    polled: SourcePoll,
) -> Result<Option<u64>, ReadError> {
    match polled {
        SourcePoll::Ready(sample_mv) => {
            if divider.source_of(sample_mv as nat) <= u64::MAX {
                Ok(Some(divider.source_of(sample_mv as nat) as u64))
            } else {
                Err(ReadError::Overflow)
            }
        },
        SourcePoll::NotReady => Ok(None),
        SourcePoll::Fault(code) => Err(ReadError::Source(code)),
    }
}

/// The mathematical model of a reader: its divider and its thresholds.
pub struct ReaderConfig {
    pub divider: Resistors,
    pub cutoff_mv: Option<u64>,
    pub charged_mv: Option<u64>,
}

/// Recovers the battery voltage from the samples of a raw-voltage source
/// behind a divider, and classifies it against optional thresholds.
#[derive(Clone, Copy, Debug, PartialEq, Eq)]
pub struct BatteryVoltageReader {
    divider: DividerRatio,
    cutoff_mv: Option<u64>,
    charged_mv: Option<u64>,
}

impl View for BatteryVoltageReader {
    type V = ReaderConfig;

    closed spec fn view(&self) -> ReaderConfig {
        ReaderConfig {
            divider: self.divider@,
            cutoff_mv: self.cutoff_mv,
            charged_mv: self.charged_mv,
        }
    }
}

impl BatteryVoltageReader {
    /// The divider is valid and the thresholds are in order.
    #[verifier::type_invariant]
    pub open spec fn wf(&self) -> bool {
        &&& self@.divider.valid()
        &&& thresholds_valid(self@.cutoff_mv, self@.charged_mv)
    }

    /// A reader behind `divider`. Thresholds that are both present and not
    /// in order are rejected.
    pub fn new(
        divider: DividerRatio,
        cutoff_mv: Option<u64>,
        charged_mv: Option<u64>,
    ) -> (r: Result<BatteryVoltageReader, ConfigError>)
        ensures
            !thresholds_valid(cutoff_mv, charged_mv) ==> r == Err::<BatteryVoltageReader, ConfigError>(
                ConfigError::InvalidThresholds,
            ),
            thresholds_valid(cutoff_mv, charged_mv) ==> r is Ok && r->Ok_0.wf() && r->Ok_0@ == (
                ReaderConfig { divider: divider@, cutoff_mv, charged_mv }
            ),
    {
        proof {
            use_type_invariant(&divider);
        }
        let in_order = match (cutoff_mv, charged_mv) {
            (Some(cutoff), Some(charged)) => cutoff < charged,
            _ => true,
        };
        if in_order {
            Ok(BatteryVoltageReader { divider, cutoff_mv, charged_mv })
        } else {
            Err(ConfigError::InvalidThresholds)
        }
    }

    /// The battery voltage in millivolts for what one poll of the source
    /// gave. A fault of the source is passed on, a source that is not ready
    /// is an error, and so is a voltage that does not fit in 64 bits.
    pub fn measure(&self, polled: SourcePoll) -> (r: Result<u64, ReadError>)
        ensures
            r == measured(self@.divider, polled),
    {
        match polled {
            SourcePoll::Ready(sample_mv) => match self.divider.recover_source_from_sample(
                sample_mv,
            ) {
                Ok(battery_mv) => Ok(battery_mv),
                Err(_) => Err(ReadError::Overflow),
            },
            SourcePoll::NotReady => Err(ReadError::NotReady),
            SourcePoll::Fault(code) => Err(ReadError::Source(code)),
        }
    }

    /// As `measure`, but a source that is not ready gives `None` and no
    /// error.
    pub fn checked_measure(&self, polled: SourcePoll) -> (r: Result<Option<u64>, ReadError>)
        ensures
            r == checked_measured(self@.divider, polled),
    {
        match polled {
            SourcePoll::NotReady => Ok(None),
            _ => match self.measure(polled) {
                Ok(battery_mv) => Ok(Some(battery_mv)),
                Err(e) => Err(e),
            },
        }
    }

    /// The band that `voltage_mv` falls in: `Cutoff` at or below the cutoff
    /// threshold, `Charged` at or above the charged threshold, `Nominal`
    /// otherwise.
    pub fn classify(&self, voltage_mv: u64) -> (state: ChargeState)
        ensures
            state == charge_state(self@.cutoff_mv, self@.charged_mv, voltage_mv),
    {
        if let Some(cutoff) = self.cutoff_mv {
            if voltage_mv <= cutoff {
                return ChargeState::Cutoff;
            }
        }
        if let Some(charged) = self.charged_mv {
            if voltage_mv >= charged {
                return ChargeState::Charged;
            }
        }
        ChargeState::Nominal
    }

    /// The divider that the reader measures through.
    pub fn divider(&self) -> (d: DividerRatio)
        ensures
            d@ == self@.divider,
            d.wf(),
    {
        proof {
            use_type_invariant(self);
            use_type_invariant(&self.divider);
        }
        self.divider
    }

    /// The cutoff threshold in millivolts, if there is one.
    pub fn cutoff_mv(&self) -> (t: Option<u64>)
        ensures
            t == self@.cutoff_mv,
    {
        self.cutoff_mv
    }

    /// The charged threshold in millivolts, if there is one.
    pub fn charged_mv(&self) -> (t: Option<u64>)
        ensures
            t == self@.charged_mv,
    {
        self.charged_mv
    }
}

/// With thresholds in order the bands do not overlap: every voltage at or
/// below the cutoff is `Cutoff`, every voltage at or above the charged
/// threshold is `Charged`, and all others are `Nominal`.
pub proof fn law_bands_do_not_overlap(cutoff_mv: u64, charged_mv: u64, voltage_mv: u64)
    requires
        thresholds_valid(Some(cutoff_mv), Some(charged_mv)),
    ensures
        voltage_mv <= cutoff_mv <==> charge_state(Some(cutoff_mv), Some(charged_mv), voltage_mv)
            == ChargeState::Cutoff,
        voltage_mv >= charged_mv <==> charge_state(Some(cutoff_mv), Some(charged_mv), voltage_mv)
            == ChargeState::Charged,
        cutoff_mv < voltage_mv < charged_mv <==> charge_state(
            Some(cutoff_mv),
            Some(charged_mv),
            voltage_mv,
        ) == ChargeState::Nominal,
{
}

/// The two ways of measuring differ only where the source is not ready: one
/// gives an error there, the other `None`.
pub proof fn law_checked_measure_agrees(divider: Resistors, polled: SourcePoll)
    ensures
        polled == SourcePoll::NotReady ==> measured(divider, polled) == Err::<u64, ReadError>(
            ReadError::NotReady,
        ) && checked_measured(divider, polled) == Ok::<Option<u64>, ReadError>(None),
        polled != SourcePoll::NotReady ==> checked_measured(divider, polled) == match measured(
            divider,
            polled,
        ) {
            Ok(battery_mv) => Ok(Some(battery_mv)),
            Err(e) => Err(e),
        },
{
}

/// A source that reports the tap voltage of a battery leads back to a
/// sample that the battery's voltage explains: the measured voltage, put
/// through the divider again, is the sample.
pub proof fn law_measured_explains_sample(divider: Resistors, sample_mv: u64)
    requires
        divider.valid(),
    ensures
        measured(divider, SourcePoll::Ready(sample_mv)) matches Ok(battery_mv) ==> divider.tap_of(
            battery_mv as nat,
        ) == sample_mv,
{
    crate::divider::law_sample_round_trip(divider, sample_mv as nat);
}

} // verus!

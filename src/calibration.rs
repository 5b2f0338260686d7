//! Two-point linear calibration of a raw sensor and the rules for keeping it
//! in non-volatile storage.
use vstd::prelude::*;
use crate::sample::{is_zero, is_zero_bits, same_value, values_equal, ONE, ZERO};

verus! {

/// The line through `(x0, y0)` and `(x1, y1)` that maps a raw reading to a
/// calibrated one. Each field is the bit pattern of a single-precision number.
#[derive(Clone, Copy, Debug)]
pub struct LinearCalibration {
    pub x0: u32,
    pub x1: u32,
    pub y0: u32,
    pub y1: u32,
}

impl LinearCalibration {
    /// Field-by-field numeric equality, as the stored and the in-memory
    /// calibrations are compared.
    pub open spec fn same_as(&self, other: &LinearCalibration) -> bool {
        &&& same_value(self.x0, other.x0)
        &&& same_value(self.x1, other.x1)
        &&& same_value(self.y0, other.y0)
        &&& same_value(self.y1, other.y1)
    }

    /// The calibration that passes readings through unchanged.
    pub open spec fn spec_default() -> LinearCalibration {
        LinearCalibration { x0: ZERO, x1: ONE, y0: ZERO, y1: ONE }
    }

    /// The identity calibration: `(0, 0)` and `(1, 1)`.
    pub fn new() -> (r: LinearCalibration)
        ensures
            r == LinearCalibration::spec_default(),
    {
        LinearCalibration { x0: ZERO, x1: ONE, y0: ZERO, y1: ONE }
    }
}

impl PartialEq for LinearCalibration {
    fn eq(&self, other: &LinearCalibration) -> (r: bool)
        ensures
            r == self.same_as(other),
    {
        values_equal(self.x0, other.x0) && values_equal(self.x1, other.x1) && values_equal(
            self.y0,
            other.y0,
        ) && values_equal(self.y1, other.y1)
    }
}

impl vstd::std_specs::cmp::PartialEqSpecImpl for LinearCalibration {
    open spec fn obeys_eq_spec() -> bool {
        true
    }

    open spec fn eq_spec(&self, other: &LinearCalibration) -> bool {
        self.same_as(other)
    }
}

/// The store holds no value under the requested name.
#[derive(Clone, Copy, Debug, PartialEq, Eq, Structural)]
pub struct EmptyBlob;

/// Why a stored calibration could not be read.
#[derive(Clone, Copy, Debug, PartialEq, Eq, Structural)]
pub enum LoadError {
    /// Nothing was ever saved under the sensor's name.
    Missing(EmptyBlob),
    /// The store failed, with the platform's error code.
    Storage(i32),
}

/// Whether a save must write, given what loading the stored copy gave
/// (`None` when it could not be loaded for any reason).
pub open spec fn save_needed(current: LinearCalibration, stored: Option<LinearCalibration>) -> bool {
    match stored {
        Some(s) => !current.same_as(&s),
        None => true,
    }
}

/// What the store holds under the sensor's name after a save.
pub open spec fn stored_after_save(
    current: LinearCalibration,
    stored: Option<LinearCalibration>,
) -> Option<LinearCalibration> {
    if save_needed(current, stored) {
        Some(current)
    } else {
        stored
    }
}

/// A sensor whose raw readings are mapped through a calibration kept under
/// the sensor's name.
pub struct CalibratedSensor {
    /// Calibration in memory.
    pub calibration: LinearCalibration,
    /// Name under which the calibration is stored.
    pub name: String,
}

impl CalibratedSensor {
    /// A sensor named `name` with the identity calibration.
    pub fn new(name: String) -> (r: CalibratedSensor)
        ensures
            r.calibration == LinearCalibration::spec_default(),
            r.name@ == name@,
    {
        CalibratedSensor { calibration: LinearCalibration::new(), name }
    }

    /// Moves one point of the calibration so that the raw reading `x` maps to
    /// `y`: the zero point when `y` is zero, the span point otherwise.
    pub fn tare_measurement(&mut self, x: u32, y: u32)
        ensures
            final(self).name == old(self).name,
            is_zero_bits(y) ==> final(self).calibration == (LinearCalibration {
                x0: x,
                y0: ZERO,
                ..old(self).calibration
            }),
            !is_zero_bits(y) ==> final(self).calibration == (LinearCalibration {
                x1: x,
                y1: y,
                ..old(self).calibration
            }),
    {
        if is_zero(y) {
            self.calibration.x0 = x;
            self.calibration.y0 = ZERO;
        } else {
            self.calibration.x1 = x;
            self.calibration.y1 = y;
        }
    }

    /// Whether saving must write the store, given the stored copy (`None`
    /// when it could not be loaded, for whatever reason). An equal stored copy
    /// is left alone, which spares the flash.
    pub fn save_calibration(&self, stored: &Option<LinearCalibration>) -> (r: bool)
        ensures
            r == save_needed(self.calibration, *stored),
    {
        match stored {
            Some(s) => !(self.calibration == *s),
            None => true,
        }
    }

    /// Installs what loading the stored calibration gave: the stored value,
    /// with `Ok(true)`; the identity calibration when nothing was stored, with
    /// `Ok(false)`; any other failure is handed back, and memory is unchanged.
    pub fn load_calibration(&mut self, loaded: Result<LinearCalibration, LoadError>) -> (r: Result<
        bool,
        LoadError,
    >)
        ensures
            final(self).name == old(self).name,
            match loaded {
                Ok(c) => r == Ok::<bool, LoadError>(true) && final(self).calibration == c,
                Err(LoadError::Missing(_)) => r == Ok::<bool, LoadError>(false)
                    && final(self).calibration == LinearCalibration::spec_default(),
                Err(e) => r == Err::<bool, LoadError>(e) && final(self).calibration
                    == old(self).calibration,
            },
    {
        match loaded {
            Ok(c) => {
                self.calibration = c;
                Ok(true)
            },
            Err(LoadError::Missing(_)) => {
                self.calibration = LinearCalibration::new();
                Ok(false)
            },
            Err(e) => Err(e),
        }
    }
}

/// One action on one of the two sensors that a calibration request asks for.
#[derive(Clone, Copy, Debug, PartialEq, Eq, Structural)]
pub enum CalibrationStep {
    /// Take a raw reading of sensor `sensor` and tare it to `y`.
    Tare { sensor: usize, y: u32 },
    /// Save the calibration of sensor `sensor`.
    Save { sensor: usize },
}

/// A request from the control plane: for each of the two sensors, an optional
/// reference value to tare to, and whether to save the calibration afterwards.
#[derive(Clone, Copy, Debug)]
pub struct CalibrationRequest {
    pub save: [bool; 2],
    pub y: [Option<u32>; 2],
}

/// The steps for sensor `i`: its tare, if a value was given, then its save,
/// if asked for.
pub open spec fn sensor_steps(save: bool, y: Option<u32>, i: usize) -> Seq<CalibrationStep> {
    let tare = match y {
        Some(v) => seq![CalibrationStep::Tare { sensor: i, y: v }],
        None => Seq::empty(),
    };
    let store = if save {
        seq![CalibrationStep::Save { sensor: i }]
    } else {
        Seq::empty()
    };
    tare + store
}

impl CalibrationRequest {
    /// The steps of this request, in the order they are carried out: first
    /// sensor, then second; for each, tare before save.
    pub open spec fn spec_steps(&self) -> Seq<CalibrationStep> {
        sensor_steps(self.save[0], self.y[0], 0) + sensor_steps(self.save[1], self.y[1], 1)
    }

    /// The steps of this request in order. Carrying them out stops at the
    /// first one that fails.
    pub fn steps(&self) -> (r: Vec<CalibrationStep>)
        ensures
            r@ == self.spec_steps(),
    {
        let mut r: Vec<CalibrationStep> = Vec::new();
        let mut i: usize = 0;
        while i < 2
            invariant
                i <= 2,
                i == 0 ==> r@ == Seq::<CalibrationStep>::empty(),
                i == 1 ==> r@ == sensor_steps(self.save[0], self.y[0], 0),
                i == 2 ==> r@ == self.spec_steps(),
            decreases 2 - i,
        {
            let ghost before = r@;
            if let Some(v) = self.y[i] {
                r.push(CalibrationStep::Tare { sensor: i, y: v });
            }
            if self.save[i] {
                r.push(CalibrationStep::Save { sensor: i });
            }
            assert(r@ =~= before + sensor_steps(self.save[i as int], self.y[i as int], i));
            i = i + 1;
        }
        r
    }
}

/// Saving twice with the in-memory calibration unchanged writes the store
/// exactly once: the first save finds a different stored copy (or none) and
/// writes, the second finds what the first wrote and skips.
pub proof fn lemma_save_twice_writes_once(
    current: LinearCalibration,
    stored: Option<LinearCalibration>,
)
    requires
        current.same_as(&current),
        save_needed(current, stored),
    ensures
        !save_needed(current, stored_after_save(current, stored)),
{
}

} // verus!

//! Storage and control logic for a dehydrator controller: the wraparound keys
//! of the measurement log, sample batches, two-point sensor calibration, the
//! damper schedule and the damper's stepper motor.
pub mod key;
pub mod sample;
pub mod calibration;
pub mod schedule;
pub mod stepper;
pub mod meas;

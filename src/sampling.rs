use vstd::prelude::*;
use crate::buffer::{keep_newest, SampleBuffer};
use crate::sample::{Axes, Sample};

verus! {

/// The sample one tick yields: only when all three channel reads succeeded.
pub open spec fn tick_sample(time: u32, acc: Option<Axes>, gyro: Option<Axes>, mag: Option<Axes>) -> Option<Sample> {
    if acc is Some && gyro is Some && mag is Some {
        Some(Sample {
            time,
            acceleration: acc->Some_0,
            gyroscope: gyro->Some_0,
            magnetometer: mag->Some_0,
        })
    } else {
        None
    }
}

/// Combines the reads of one tick, taken at `time`, into a sample; a failed
/// read of any channel (`None`) yields none.
pub fn sample_data(time: u32, acc: Option<Axes>, gyro: Option<Axes>, mag: Option<Axes>) -> (r: Option<Sample>)
    ensures
        r == tick_sample(time, acc, gyro, mag),
{
    match (acc, gyro, mag) {
        (Some(a), Some(g), Some(m)) => Some(Sample { time, acceleration: a, gyroscope: g, magnetometer: m }),
        _ => None,
    }
}

/// One tick of the sampling loop: pushes the tick's sample into `buffer`
/// when all three reads succeeded, and otherwise skips the tick silently.
/// Returns whether a sample was pushed.
pub fn record_tick(buffer: &mut SampleBuffer, time: u32, acc: Option<Axes>, gyro: Option<Axes>, mag: Option<Axes>) -> (pushed: bool)
    requires
        old(buffer).wf(),
    ensures
        final(buffer).wf(),
        final(buffer).cap() == old(buffer).cap(),
        pushed == tick_sample(time, acc, gyro, mag) is Some,
        pushed ==> final(buffer)@ == keep_newest(
            old(buffer)@.push(tick_sample(time, acc, gyro, mag)->Some_0), old(buffer).cap()),
        !pushed ==> final(buffer)@ == old(buffer)@,
{
    match sample_data(time, acc, gyro, mag) {
        Some(s) => {
            buffer.push(s);
            true
        },
        None => false,
    }
}

} // verus!

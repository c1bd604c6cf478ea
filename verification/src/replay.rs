//! Drift-compensated playback pacing.
//!
//! The controller maps file-relative block timestamps onto a real-time
//! schedule at a configurable speed. The first timestamp it sees after a
//! reset becomes the origin; each later timestamp's file-relative offset,
//! divided by the speed, is the moment (relative to the session start) the
//! block is due. The controller only decides — how long to sleep, or how far
//! behind the schedule the caller is; the sleeping itself, wall clocks and
//! pauses are the caller's business.
//!
//! Speed is carried in thousandths, so speed 1.0 is 1000 and speed 2.0 is
//! 2000; the arithmetic is exact integer arithmetic.

use vstd::prelude::*;

use crate::counters::{sat_add, sat_add_u64};
use crate::error::GlosError;

verus! {

/// Smallest accepted speed, in thousandths: speeds below 0.01 are clamped
/// up to it.
pub const MIN_SPEED_MILLI: u64 = 10;

/// A playback cycle more than this many nanoseconds behind schedule counts
/// as an underrun.
pub const UNDERRUN_THRESHOLD_NS: u64 = 1000000;

/// What the errors of a replay session can be.
#[derive(Debug)]
pub enum ReplayError {
    /// The stream itself is bad.
    Glos(GlosError),
    /// The session configuration is bad.
    Config(String),
}

/// Counters of one replay session. All saturate rather than wrap.
#[derive(Debug, Clone, PartialEq, Eq, Structural)]
pub struct ReplayMetrics {
    /// Datagrams handed to the transport.
    pub packets_sent: u64,
    /// Samples those datagrams carried.
    pub samples_sent: u64,
    /// Bytes those datagrams carried.
    pub bytes_sent: u64,
    /// Cycles more than the underrun threshold behind schedule.
    pub underruns: u64,
    /// Datagrams the transport refused or that could not be encoded.
    pub send_errors: u64,
    /// Accumulated distance between scheduled and actual send moments.
    pub timing_error_ns_total: u64,
}

impl ReplayMetrics {
    /// Fresh counters, all zero.
    pub fn new() -> (m: Self)
        ensures
            m == (ReplayMetrics {
                packets_sent: 0,
                samples_sent: 0,
                bytes_sent: 0,
                underruns: 0,
                send_errors: 0,
                timing_error_ns_total: 0,
            }),
    {
        ReplayMetrics {
            packets_sent: 0,
            samples_sent: 0,
            bytes_sent: 0,
            underruns: 0,
            send_errors: 0,
            timing_error_ns_total: 0,
        }
    }

    /// Accounts one datagram handed to the transport.
    pub fn record_packet(&mut self, samples: u32, bytes: u64)
        ensures
            *final(self) == (ReplayMetrics {
                packets_sent: sat_add_u64(old(self).packets_sent, 1),
                samples_sent: sat_add_u64(old(self).samples_sent, samples as int),
                bytes_sent: sat_add_u64(old(self).bytes_sent, bytes as int),
                ..*old(self)
            }),
    {
        self.packets_sent = sat_add(self.packets_sent, 1);
        self.samples_sent = sat_add(self.samples_sent, samples as u64);
        self.bytes_sent = sat_add(self.bytes_sent, bytes);
    }

    /// Accounts one datagram the transport refused or that could not be
    /// encoded.
    pub fn record_send_error(&mut self)
        ensures
            *final(self) == (ReplayMetrics {
                send_errors: sat_add_u64(old(self).send_errors, 1),
                ..*old(self)
            }),
    {
        self.send_errors = sat_add(self.send_errors, 1);
    }

    /// Accounts the timing error of one cycle, and the underrun when the
    /// cycle ran late enough to be one.
    pub fn record_timing(&mut self, error_ns: u64, underrun: bool)
        ensures
            *final(self) == (ReplayMetrics {
                timing_error_ns_total: sat_add_u64(
                    old(self).timing_error_ns_total,
                    error_ns as int,
                ),
                underruns: sat_add_u64(old(self).underruns, if underrun { 1int } else { 0 }),
                ..*old(self)
            }),
    {
        self.timing_error_ns_total = sat_add(self.timing_error_ns_total, error_ns);
        if underrun {
            self.underruns = sat_add(self.underruns, 1);
        }
    }
}

/// What a playback cycle should do before sending its block.
#[derive(Debug, Clone, Copy, PartialEq, Eq, Structural)]
pub enum WaitPlan {
    /// The block is due `sleep_ns` from now; sleep that long. `target_ns`
    /// is the block's scheduled offset from session start, kept so the
    /// caller can measure its overshoot after the sleep.
    Sleep { sleep_ns: u64, target_ns: u64 },
    /// The schedule has already passed: send immediately, record `lag_ns`
    /// of timing error, and an underrun when the lag is beyond the
    /// threshold. No catch-up burst: nothing sleeps here.
    Behind { lag_ns: u64, underrun: bool },
}

/// The real-time offset, from session start, at which a block
/// `file_offset_ns` into the file is due at the given speed: the file
/// offset divided by the speed, stopped at the top of the 64-bit range.
pub open spec fn real_offset_of(file_offset_ns: u64, speed_milli: u64) -> u64
    recommends
        speed_milli > 0,
{
    let v = file_offset_ns * 1000 / (speed_milli as int);
    if v > u64::MAX {
        u64::MAX
    } else {
        v as u64
    }
}

/// Paces playback: binds the first file timestamp it sees as the origin and
/// schedules every later one relative to it.
pub struct TimingController {
    speed_milli: u64,
    file_start_ns: Option<u64>,
}

impl TimingController {
    /// The clamping in `new` keeps the speed positive, so the schedule
    /// arithmetic never divides by zero.
    pub closed spec fn wf(&self) -> bool {
        self.speed_milli > 0
    }

    /// The speed, in thousandths; always positive.
    pub closed spec fn spec_speed_milli(&self) -> u64 {
        self.speed_milli
    }

    /// The bound file-time origin, if a timestamp was seen since the last
    /// reset.
    pub closed spec fn spec_file_start_ns(&self) -> Option<u64> {
        self.file_start_ns
    }

    /// A controller at the given speed (in thousandths); speeds below the
    /// minimum are clamped up to it, so the speed is always positive.
    pub fn new(speed_milli: u64) -> (c: Self)
        ensures
            c.wf(),
            c.spec_speed_milli() == if speed_milli < MIN_SPEED_MILLI {
                MIN_SPEED_MILLI
            } else {
                speed_milli
            },
            c.spec_file_start_ns() is None,
    {
        let speed = if speed_milli < MIN_SPEED_MILLI {
            MIN_SPEED_MILLI
        } else {
            speed_milli
        };
        TimingController { speed_milli: speed, file_start_ns: None }
    }

    /// Forgets the file-time origin, so the next timestamp binds a new one.
    /// Used when playback loops back to the start of a file; the caller
    /// restarts its wall-clock reference alongside.
    pub fn reset(&mut self)
        ensures
            final(self).wf() == old(self).wf(),
            final(self).spec_file_start_ns() is None,
            final(self).spec_speed_milli() == old(self).spec_speed_milli(),
    {
        self.file_start_ns = None;
    }

    /// Decides what to do before sending the block stamped `timestamp_ns`,
    /// given that `elapsed_ns` of real time passed since the session
    /// started.
    ///
    /// The first call since a reset binds the timestamp as the origin.
    /// Timestamps before the origin count as the origin itself. When the
    /// block's scheduled moment is still ahead, the plan says how long to
    /// sleep; when it has passed, the plan reports the lag and whether it
    /// counts as an underrun.
    pub fn plan_wait(&mut self, timestamp_ns: u64, elapsed_ns: u64) -> (r: WaitPlan)
        requires
            old(self).wf(),
        ensures
            final(self).wf(),
            final(self).spec_speed_milli() == old(self).spec_speed_milli(),
            final(self).spec_file_start_ns() == Some(
                match old(self).spec_file_start_ns() {
                    Some(o) => o,
                    None => timestamp_ns,
                },
            ),
            ({
                let origin = match old(self).spec_file_start_ns() {
                    Some(o) => o,
                    None => timestamp_ns,
                };
                let file_offset = if timestamp_ns >= origin {
                    (timestamp_ns - origin) as u64
                } else {
                    0u64
                };
                let target = real_offset_of(file_offset, old(self).spec_speed_milli());
                if target > elapsed_ns {
                    r == (WaitPlan::Sleep {
                        sleep_ns: (target - elapsed_ns) as u64,
                        target_ns: target,
                    })
                } else {
                    r == (WaitPlan::Behind {
                        lag_ns: (elapsed_ns - target) as u64,
                        underrun: elapsed_ns - target > UNDERRUN_THRESHOLD_NS,
                    })
                }
            }),
    {
        let origin = match self.file_start_ns {
            Some(o) => o,
            None => {
                self.file_start_ns = Some(timestamp_ns);
                timestamp_ns
            },
        };
        let file_offset = if timestamp_ns >= origin {
            timestamp_ns - origin
        } else {
            0
        };
        let scaled: u128 = (file_offset as u128) * 1000 / (self.speed_milli as u128);
        let target: u64 = if scaled > u64::MAX as u128 {
            u64::MAX
        } else {
            scaled as u64
        };
        if target > elapsed_ns {
            WaitPlan::Sleep { sleep_ns: target - elapsed_ns, target_ns: target }
        } else {
            let lag = elapsed_ns - target;
            WaitPlan::Behind { lag_ns: lag, underrun: lag > UNDERRUN_THRESHOLD_NS }
        }
    }

    /// The timing error a cycle records after its sleep: how far the actual
    /// elapsed time overshot the scheduled moment.
    pub fn overshoot_after_sleep(&self, target_ns: u64, actual_elapsed_ns: u64) -> (r: u64)
        ensures
            r == if actual_elapsed_ns >= target_ns {
                (actual_elapsed_ns - target_ns) as u64
            } else {
                0u64
            },
    {
        if actual_elapsed_ns >= target_ns {
            actual_elapsed_ns - target_ns
        } else {
            0
        }
    }
}

} // verus!

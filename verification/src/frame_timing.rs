//! Sliding-window timing of the overlay's per-frame work. The host measures each phase in
//! microseconds and says when the current one-second window has elapsed.

use vstd::prelude::*;

verus! {

/// The most recent frame's phase costs and the last completed window's statistics.
#[derive(Debug, Clone, Copy, PartialEq, Eq, Structural)]
pub struct FrameTimingSnapshot {
    /// Most recent frame: config reload phase (µs).
    pub reload_us: u64,
    /// Most recent frame: view-model drain (µs).
    pub drain_us: u64,
    /// Most recent frame: draw (µs).
    pub draw_us: u64,
    /// Most recent frame: menu-cursor write (µs).
    pub cursor_us: u64,
    /// Most recent frame: total overlay work (µs).
    pub total_us: u64,
    /// Average total over the last completed window (µs).
    pub avg_total_us: u64,
    /// Max total over the last completed window (µs).
    pub max_total_us: u64,
    /// Samples in the last completed window.
    pub samples: u32,
}

impl FrameTimingSnapshot {
    pub open spec fn zero() -> Self {
        FrameTimingSnapshot {
            reload_us: 0,
            drain_us: 0,
            draw_us: 0,
            cursor_us: 0,
            total_us: 0,
            avg_total_us: 0,
            max_total_us: 0,
            samples: 0,
        }
    }
}

impl Default for FrameTimingSnapshot {
    fn default() -> (s: Self)
        ensures
            s == FrameTimingSnapshot::zero(),
    {
        FrameTimingSnapshot {
            reload_us: 0,
            drain_us: 0,
            draw_us: 0,
            cursor_us: 0,
            total_us: 0,
            avg_total_us: 0,
            max_total_us: 0,
            samples: 0,
        }
    }
}

/// Accumulates frame costs and publishes window statistics when a window closes.
pub struct FrameTimingAccum {
    sum_total_us: u64,
    max_total_us: u64,
    samples: u32,
    snapshot: FrameTimingSnapshot,
}

/// Abstract state of a [`FrameTimingAccum`]: the open window's running sum, maximum and
/// sample count, and the published snapshot.
pub ghost struct AccumModel {
    pub sum_total_us: u64,
    pub max_total_us: u64,
    pub samples: u32,
    pub snapshot: FrameTimingSnapshot,
}

impl View for FrameTimingAccum {
    type V = AccumModel;

    closed spec fn view(&self) -> AccumModel {
        AccumModel {
            sum_total_us: self.sum_total_us,
            max_total_us: self.max_total_us,
            samples: self.samples,
            snapshot: self.snapshot,
        }
    }
}

pub open spec fn sat_add_u64(a: u64, b: u64) -> u64 {
    if a + b > u64::MAX {
        u64::MAX
    } else {
        (a + b) as u64
    }
}

pub open spec fn sat_inc_u32(a: u32) -> u32 {
    if a == u32::MAX {
        u32::MAX
    } else {
        (a + 1) as u32
    }
}

pub open spec fn max_u64(a: u64, b: u64) -> u64 {
    if a >= b {
        a
    } else {
        b
    }
}

/// One recorded frame: the phase costs become the snapshot's latest values and the total joins
/// the window (saturating); when the window has elapsed its average, maximum and sample count
/// are published and a new window starts empty.
pub open spec fn record_step(
    m: AccumModel,
    reload_us: u64,
    drain_us: u64,
    draw_us: u64,
    cursor_us: u64,
    total_us: u64,
    window_elapsed: bool,
) -> AccumModel {
    let sum = sat_add_u64(m.sum_total_us, total_us);
    let max = max_u64(m.max_total_us, total_us);
    let samples = sat_inc_u32(m.samples);
    let snap = FrameTimingSnapshot { reload_us, drain_us, draw_us, cursor_us, total_us, ..m.snapshot };
    if window_elapsed {
        AccumModel {
            sum_total_us: 0,
            max_total_us: 0,
            samples: 0,
            snapshot: FrameTimingSnapshot {
                avg_total_us: (sum / (samples as u64)) as u64,
                max_total_us: max,
                samples,
                ..snap
            },
        }
    } else {
        AccumModel { sum_total_us: sum, max_total_us: max, samples, snapshot: snap }
    }
}

/// The open window's sum is at most its sample count times its maximum.
pub open spec fn window_consistent(m: AccumModel) -> bool {
    m.sum_total_us as int <= m.samples as int * m.max_total_us as int
}

/// Recording keeps the window consistent (short of the sample count saturating), and a
/// published average never exceeds the published maximum.
pub proof fn law_window_average_within_max(
    m: AccumModel,
    reload_us: u64,
    drain_us: u64,
    draw_us: u64,
    cursor_us: u64,
    total_us: u64,
    window_elapsed: bool,
)
    requires
        window_consistent(m),
        m.samples < u32::MAX,
    ensures
        window_consistent(
            record_step(m, reload_us, drain_us, draw_us, cursor_us, total_us, window_elapsed),
        ),
        window_elapsed ==> {
            let n = record_step(m, reload_us, drain_us, draw_us, cursor_us, total_us, window_elapsed);
            n.snapshot.avg_total_us <= n.snapshot.max_total_us
        },
{
    let sum = sat_add_u64(m.sum_total_us, total_us);
    let max = max_u64(m.max_total_us, total_us);
    let samples = sat_inc_u32(m.samples);
    let s0 = m.samples as int;
    let mx0 = m.max_total_us as int;
    let mx = max as int;
    assert(s0 * mx0 <= s0 * mx) by (nonlinear_arith)
        requires
            0 <= s0,
            mx0 <= mx,
    ;
    assert((s0 + 1) * mx == s0 * mx + mx) by (nonlinear_arith);
    assert(sum as int <= (samples as int) * mx);
    if window_elapsed {
        let n = samples as int;
        let q = (sum as int) / n;
        assert(q <= mx) by (nonlinear_arith)
            requires
                n > 0,
                0 <= sum as int <= n * mx,
                q == (sum as int) / n,
        ;
    }
}

impl FrameTimingAccum {
    pub fn new() -> (a: Self)
        ensures
            a@ == (AccumModel {
                sum_total_us: 0,
                max_total_us: 0,
                samples: 0,
                snapshot: FrameTimingSnapshot::zero(),
            }),
    {
        FrameTimingAccum {
            sum_total_us: 0,
            max_total_us: 0,
            samples: 0,
            snapshot: FrameTimingSnapshot::default(),
        }
    }

    /// Records one frame's phase costs (µs). `window_elapsed` says whether the current window
    /// has lasted a second; the host then starts a new one.
    pub fn record(
        &mut self,
        reload_us: u64,
        drain_us: u64,
        draw_us: u64,
        cursor_us: u64,
        total_us: u64,
        window_elapsed: bool,
    )
        ensures
            final(self)@ == record_step(
                old(self)@,
                reload_us,
                drain_us,
                draw_us,
                cursor_us,
                total_us,
                window_elapsed,
            ),
    {
        self.snapshot.reload_us = reload_us;
        self.snapshot.drain_us = drain_us;
        self.snapshot.draw_us = draw_us;
        self.snapshot.cursor_us = cursor_us;
        self.snapshot.total_us = total_us;

        self.sum_total_us = self.sum_total_us.saturating_add(total_us);
        if total_us > self.max_total_us {
            self.max_total_us = total_us;
        }
        self.samples = self.samples.saturating_add(1);

        if window_elapsed {
            let avg = self.sum_total_us / (self.samples as u64);
            self.snapshot.avg_total_us = avg;
            self.snapshot.max_total_us = self.max_total_us;
            self.snapshot.samples = self.samples;
            self.sum_total_us = 0;
            self.max_total_us = 0;
            self.samples = 0;
        }
    }

    pub fn snapshot(&self) -> (s: FrameTimingSnapshot)
        ensures
            s == self@.snapshot,
    {
        self.snapshot
    }
}

impl Default for FrameTimingAccum {
    fn default() -> (a: Self)
        ensures
            a@ == (AccumModel {
                sum_total_us: 0,
                max_total_us: 0,
                samples: 0,
                snapshot: FrameTimingSnapshot::zero(),
            }),
    {
        FrameTimingAccum::new()
    }
}

} // verus!

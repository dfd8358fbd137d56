//! Chart construction: x-axis bounds and label placement, y-axis bounds
//! per metric role, and the axis-aligned point series of every chart of the
//! dashboard. Timestamps are milliseconds; percentage samples are carried
//! as bit patterns and never interpreted here.

use vstd::prelude::*;
use crate::align::{aligned, align_series};
use crate::store::{ClientStats, DevFreqs, DeviceState, CliMem, lex_lt};

verus! {

/// Fixed y-bounds of the percentage charts (per-engine utilization, CPU).
pub const PCT_Y_MIN: u64 = 0;

/// Fixed y-bounds of the percentage charts (per-engine utilization, CPU).
pub const PCT_Y_MAX: u64 = 100;

/// Minimum y-scale of the memory charts, so the axis does not degenerate
/// near zero usage.
pub const MEM_Y_FLOOR: u64 = 1024;

/// X-axis bounds and label positions, all in axis (timestamp) units.
pub struct XAxis {
    pub lo: u64,
    pub hi: u64,
    pub labels: Vec<u64>,
}

/// Label positions for an axis of `n >= 1` timestamps: a single-entry axis
/// synthesizes a second point one tick interval later; two entries label
/// start and end; three or more label start, midpoint and end.
pub open spec fn spec_x_labels(ts: Seq<u64>, interval_ms: u64) -> Seq<u64> {
    if ts.len() == 1 {
        seq![ts[0], (ts[0] + interval_ms) as u64]
    } else if ts.len() == 2 {
        seq![ts[0], ts[(ts.len() / 2) as int]]
    } else {
        seq![ts[0], ts[(ts.len() / 2) as int], ts[ts.len() - 1]]
    }
}

/// Computes the x-axis bounds and labels for the shared timestamp axis.
/// With a single timestamp the upper bound is synthesized one tick
/// interval later; the end label appears only from three entries on, so
/// labels never duplicate at two entries.
pub fn x_axis(tstamps: &Vec<u64>, interval_ms: u64) -> (r: XAxis)
    requires
        tstamps@.len() >= 1,
        tstamps@[0] + interval_ms <= u64::MAX,
    ensures
        r.lo == tstamps@[0],
        tstamps@.len() == 1 ==> r.hi == tstamps@[0] + interval_ms,
        tstamps@.len() >= 2 ==> r.hi == tstamps@[tstamps@.len() - 1],
        r.labels@ == spec_x_labels(tstamps@, interval_ms),
{
    let n = tstamps.len();
    let t0 = tstamps[0];
    let mut labels: Vec<u64> = Vec::new();
    if n == 1 {
        let hi = t0 + interval_ms;
        labels.push(t0);
        labels.push(hi);
        proof {
            assert(labels@ =~= spec_x_labels(tstamps@, interval_ms));
        }
        XAxis { lo: t0, hi, labels }
    } else {
        let hi = tstamps[n - 1];
        labels.push(t0);
        labels.push(tstamps[n / 2]);
        if n >= 3 {
            labels.push(hi);
        }
        proof {
            assert(labels@ =~= spec_x_labels(tstamps@, interval_ms));
        }
        XAxis { lo: t0, hi, labels }
    }
}

/// Running maximum of every "used" value of a memory history, floored at
/// the minimum scale: the y-axis top of the memory charts.
pub open spec fn spec_mem_y_max(h: Seq<CliMem>) -> u64
    decreases h.len(),
{
    if h.len() == 0 {
        MEM_Y_FLOOR
    } else {
        max2_u64(
            spec_mem_y_max(h.drop_last()),
            max2_u64(h.last().smem_used, h.last().vram_used),
        )
    }
}

/// The larger of two values.
pub open spec fn max2_u64(a: u64, b: u64) -> u64 {
    if a >= b {
        a
    } else {
        b
    }
}

/// The client memory chart: the four aligned memory series and the y-axis
/// bounds.
pub struct MemInfoChart {
    pub sm_used: Vec<(u64, u64)>,
    pub sm_rss: Vec<(u64, u64)>,
    pub vr_used: Vec<(u64, u64)>,
    pub vr_rss: Vec<(u64, u64)>,
    pub y_min: u64,
    pub y_max: u64,
}

/// Builds the client memory chart: each series right-aligned against the
/// shared axis, y from zero up to the floored running maximum of the used
/// values.
pub fn meminfo_chart(cli: &ClientStats, axis: &Vec<u64>) -> (r: MemInfoChart)
    requires
        cli.mem_info@.len() <= axis@.len(),
    ensures
        r.sm_used@ == aligned(axis@, cli.mem_info@.map_values(|m: CliMem| m.smem_used)),
        r.sm_rss@ == aligned(axis@, cli.mem_info@.map_values(|m: CliMem| m.smem_rss)),
        r.vr_used@ == aligned(axis@, cli.mem_info@.map_values(|m: CliMem| m.vram_used)),
        r.vr_rss@ == aligned(axis@, cli.mem_info@.map_values(|m: CliMem| m.vram_rss)),
        r.y_min == 0,
        r.y_max == spec_mem_y_max(cli.mem_info@),
{
    let h = cli.mem_info.samples();
    let n = h.len();
    let mut sm_used: Vec<u64> = Vec::new();
    let mut sm_rss: Vec<u64> = Vec::new();
    let mut vr_used: Vec<u64> = Vec::new();
    let mut vr_rss: Vec<u64> = Vec::new();
    let mut y_max: u64 = MEM_Y_FLOOR;
    let mut i: usize = 0;
    while i < n
        invariant
            i <= n,
            n == h@.len(),
            h@ == cli.mem_info@,
            sm_used@.len() == i,
            sm_rss@.len() == i,
            vr_used@.len() == i,
            vr_rss@.len() == i,
            forall|j: int| 0 <= j < i ==> sm_used@[j] == (#[trigger] h@[j]).smem_used,
            forall|j: int| 0 <= j < i ==> sm_rss@[j] == (#[trigger] h@[j]).smem_rss,
            forall|j: int| 0 <= j < i ==> vr_used@[j] == (#[trigger] h@[j]).vram_used,
            forall|j: int| 0 <= j < i ==> vr_rss@[j] == (#[trigger] h@[j]).vram_rss,
            y_max == spec_mem_y_max(h@.take(i as int)),
        decreases n - i,
    {
        let m = h[i];
        sm_used.push(m.smem_used);
        sm_rss.push(m.smem_rss);
        vr_used.push(m.vram_used);
        vr_rss.push(m.vram_rss);
        if m.smem_used > y_max {
            y_max = m.smem_used;
        }
        if m.vram_used > y_max {
            y_max = m.vram_used;
        }
        proof {
            assert(h@.take(i + 1).drop_last() =~= h@.take(i as int));
            assert(h@.take(i + 1).last() == h@[i as int]);
        }
        i += 1;
    }
    proof {
        assert(h@.take(n as int) =~= h@);
        assert(sm_used@ =~= cli.mem_info@.map_values(|m: CliMem| m.smem_used));
        assert(sm_rss@ =~= cli.mem_info@.map_values(|m: CliMem| m.smem_rss));
        assert(vr_used@ =~= cli.mem_info@.map_values(|m: CliMem| m.vram_used));
        assert(vr_rss@ =~= cli.mem_info@.map_values(|m: CliMem| m.vram_rss));
    }
    MemInfoChart {
        sm_used: align_series(axis, &sm_used),
        sm_rss: align_series(axis, &sm_rss),
        vr_used: align_series(axis, &vr_used),
        vr_rss: align_series(axis, &vr_rss),
        y_min: 0,
        y_max,
    }
}

/// One engine's aligned utilization series. The palette slot is the
/// engine's rank in the name order, so the same engine always renders in
/// the same color across draws, independent of observation order.
pub struct EngineSeries {
    pub name: String,
    pub palette_slot: usize,
    pub points: Vec<(u64, u64)>,
}

/// Builds one aligned series per engine, in (sorted) name order; palette
/// slots are assigned from that order, starting at one.
pub fn engines_chart(cli: &ClientStats, axis: &Vec<u64>) -> (r: Vec<EngineSeries>)
    requires
        cli.wf(),
        forall|e: int|
            0 <= e < cli.eng_stats@.len() ==> (#[trigger] cli.eng_stats@[e].usage)@.len()
                <= axis@.len(),
    ensures
        r@.len() == cli.eng_stats@.len(),
        forall|i: int|
            0 <= i < r@.len() ==> {
                &&& (#[trigger] r@[i]).name@ == cli.eng_stats@[i].name@
                &&& r@[i].palette_slot == i + 1
                &&& r@[i].points@ == aligned(axis@, cli.eng_stats@[i].usage@)
            },
        forall|i: int, j: int| 0 <= i < j < r@.len() ==> lex_lt(r@[i].name@, r@[j].name@),
{
    let n = cli.eng_stats.len();
    let mut r: Vec<EngineSeries> = Vec::new();
    let mut i: usize = 0;
    while i < n
        invariant
            i <= n,
            n == cli.eng_stats@.len(),
            cli.wf(),
            forall|e: int|
                0 <= e < cli.eng_stats@.len() ==> (#[trigger] cli.eng_stats@[e].usage)@.len()
                    <= axis@.len(),
            r@.len() == i,
            forall|j: int|
                0 <= j < i ==> {
                    &&& (#[trigger] r@[j]).name@ == cli.eng_stats@[j].name@
                    &&& r@[j].palette_slot == j + 1
                    &&& r@[j].points@ == aligned(axis@, cli.eng_stats@[j].usage@)
                },
        decreases n - i,
    {
        let eng = &cli.eng_stats[i];
        let series = EngineSeries {
            name: eng.name.clone(),
            palette_slot: i + 1,
            points: align_series(axis, eng.usage.samples()),
        };
        r.push(series);
        i += 1;
    }
    r
}

/// Builds the aligned CPU-usage series of a client.
pub fn cpu_chart(cli: &ClientStats, axis: &Vec<u64>) -> (r: Vec<(u64, u64)>)
    requires
        cli.cpu_usage@.len() <= axis@.len(),
    ensures
        r@ == aligned(axis@, cli.cpu_usage@),
{
    align_series(axis, cli.cpu_usage.samples())
}

/// Least minimum frequency over a window, starting from the largest value.
pub open spec fn spec_freq_y_min(h: Seq<DevFreqs>) -> u64
    decreases h.len(),
{
    if h.len() == 0 {
        u64::MAX
    } else if h.last().min_freq < spec_freq_y_min(h.drop_last()) {
        h.last().min_freq
    } else {
        spec_freq_y_min(h.drop_last())
    }
}

/// Greatest maximum frequency over a window.
pub open spec fn spec_freq_y_max(h: Seq<DevFreqs>) -> u64
    decreases h.len(),
{
    if h.len() == 0 {
        0
    } else {
        max2_u64(spec_freq_y_max(h.drop_last()), h.last().max_freq)
    }
}

/// The device frequency chart: requested and actual series over the shared
/// axis, with y-bounds from the sampled frequency limits.
pub struct FreqChart {
    pub requested: Vec<(u64, u64)>,
    pub actual: Vec<(u64, u64)>,
    pub y_min: u64,
    pub y_max: u64,
}

/// Builds the device frequency chart: one point per tick both histories
/// cover, in tick order.
pub fn freq_chart(dev: &DeviceState, axis: &Vec<u64>) -> (r: FreqChart)
    ensures
        ({
            let zn = if dev.freqs@.len() <= axis@.len() {
                dev.freqs@.len() as int
            } else {
                axis@.len() as int
            };
            &&& r.requested@.len() == zn
            &&& r.actual@.len() == zn
            &&& forall|i: int|
                0 <= i < zn ==> (#[trigger] r.requested@[i]) == (
                axis@[i],
                dev.freqs@[i].cur_freq,
                )
            &&& forall|i: int|
                0 <= i < zn ==> (#[trigger] r.actual@[i]) == (axis@[i], dev.freqs@[i].act_freq)
            &&& r.y_min == spec_freq_y_min(dev.freqs@.take(zn))
            &&& r.y_max == spec_freq_y_max(dev.freqs@.take(zn))
        }),
{
    let h = dev.freqs.samples();
    let hn = h.len();
    let an = axis.len();
    let zn = if hn <= an {
        hn
    } else {
        an
    };
    let mut requested: Vec<(u64, u64)> = Vec::new();
    let mut actual: Vec<(u64, u64)> = Vec::new();
    let mut y_min: u64 = u64::MAX;
    let mut y_max: u64 = 0;
    let mut i: usize = 0;
    while i < zn
        invariant
            i <= zn,
            zn <= h@.len(),
            zn <= axis@.len(),
            h@ == dev.freqs@,
            requested@.len() == i,
            actual@.len() == i,
            forall|j: int| 0 <= j < i ==> (#[trigger] requested@[j]) == (axis@[j], h@[j].cur_freq),
            forall|j: int| 0 <= j < i ==> (#[trigger] actual@[j]) == (axis@[j], h@[j].act_freq),
            y_min == spec_freq_y_min(h@.take(i as int)),
            y_max == spec_freq_y_max(h@.take(i as int)),
        decreases zn - i,
    {
        let f = h[i];
        requested.push((axis[i], f.cur_freq));
        actual.push((axis[i], f.act_freq));
        if f.min_freq < y_min {
            y_min = f.min_freq;
        }
        if f.max_freq > y_max {
            y_max = f.max_freq;
        }
        proof {
            assert(h@.take(i + 1).drop_last() =~= h@.take(i as int));
            assert(h@.take(i + 1).last() == h@[i as int]);
        }
        i += 1;
    }
    FreqChart { requested, actual, y_min, y_max }
}

} // verus!

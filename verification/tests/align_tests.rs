use qmassa::align::align_series;
use qmassa::chart::{cpu_chart, meminfo_chart};
use qmassa::history::RingHistory;
use qmassa::store::{CliMem, ClientStats};

fn client_with_histories(mem: Vec<CliMem>, cpu: Vec<u64>) -> ClientStats {
    let mut mem_info = RingHistory::new(16);
    for m in mem {
        mem_info.push(m);
    }
    let mut cpu_usage = RingHistory::new(16);
    for c in cpu {
        cpu_usage.push(c);
    }
    ClientStats {
        pid: 100,
        drm_minor: 128,
        client_id: 1,
        comm: String::from("proc"),
        cmdline: String::from("/usr/bin/proc"),
        is_active: true,
        mem_info,
        eng_stats: Vec::new(),
        cpu_usage,
    }
}

#[test]
fn align_pads_short_history_with_zero_points() {
    let axis: Vec<u64> = vec![10, 20, 30, 40, 50];
    let hist: Vec<u64> = vec![7, 9];
    let points = align_series(&axis, &hist);
    assert_eq!(points, vec![(10, 0), (20, 0), (30, 0), (40, 7), (50, 9)]);
}

#[test]
fn align_full_history_needs_no_padding() {
    let axis: Vec<u64> = vec![1, 2, 3];
    let hist: Vec<u64> = vec![4, 5, 6];
    let points = align_series(&axis, &hist);
    assert_eq!(points, vec![(1, 4), (2, 5), (3, 6)]);
}

#[test]
fn align_empty_history_is_all_zero_points() {
    let axis: Vec<u64> = vec![1, 2];
    let hist: Vec<u64> = Vec::new();
    let points = align_series(&axis, &hist);
    assert_eq!(points, vec![(1, 0), (2, 0)]);
}

#[test]
fn align_empty_axis_gives_no_points() {
    let axis: Vec<u64> = Vec::new();
    let hist: Vec<u64> = Vec::new();
    assert_eq!(align_series(&axis, &hist), Vec::new());
}

#[test]
fn end_to_end_single_sample_against_five_ticks() {
    // One client with a single zeroed memory sample against a 5-entry
    // timestamp axis: four leading zero points, then one real zero point.
    let axis: Vec<u64> = vec![1000, 2000, 3000, 4000, 5000];
    let zero = CliMem { smem_rss: 0, smem_used: 0, vram_rss: 0, vram_used: 0 };
    let cpu_bits = (42.5f64).to_bits();
    let cli = client_with_histories(vec![zero], vec![cpu_bits]);

    let chart = meminfo_chart(&cli, &axis);
    assert_eq!(
        chart.sm_rss,
        vec![(1000, 0), (2000, 0), (3000, 0), (4000, 0), (5000, 0)]
    );
    assert_eq!(chart.y_min, 0);
    assert_eq!(chart.y_max, 1024);

    let cpu = cpu_chart(&cli, &axis);
    assert_eq!(cpu.len(), 5);
    for p in cpu.iter().take(4) {
        assert_eq!(f64::from_bits(p.1), 0.0);
    }
    assert_eq!(cpu[4].0, 5000);
    assert_eq!(f64::from_bits(cpu[4].1), 42.5);
}

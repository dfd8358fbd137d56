use qmassa::chart::{freq_chart, meminfo_chart, x_axis, MEM_Y_FLOOR, PCT_Y_MAX, PCT_Y_MIN};
use qmassa::history::RingHistory;
use qmassa::store::{CliMem, ClientStats, DevFreqs, DevMem, DeviceState};

fn client_with_mem(mem: Vec<CliMem>) -> ClientStats {
    let mut mem_info = RingHistory::new(16);
    for m in mem {
        mem_info.push(m);
    }
    let mut cpu_usage = RingHistory::new(16);
    cpu_usage.push(0);
    ClientStats {
        pid: 1,
        drm_minor: 128,
        client_id: 1,
        comm: String::from("proc"),
        cmdline: String::from("/usr/bin/proc"),
        is_active: true,
        mem_info,
        eng_stats: Vec::new(),
        cpu_usage,
    }
}

#[test]
fn single_tick_axis_synthesizes_second_label() {
    let ts: Vec<u64> = vec![5000];
    let ax = x_axis(&ts, 2000);
    assert_eq!((ax.lo, ax.hi), (5000, 7000));
    assert_eq!(ax.labels, vec![5000, 7000]);
}

#[test]
fn two_tick_axis_has_no_end_label() {
    let ts: Vec<u64> = vec![5000, 6000];
    let ax = x_axis(&ts, 2000);
    assert_eq!((ax.lo, ax.hi), (5000, 6000));
    assert_eq!(ax.labels, vec![5000, 6000]);
}

#[test]
fn longer_axis_labels_start_midpoint_end() {
    let ts: Vec<u64> = vec![1000, 2000, 3000, 4000, 5000];
    let ax = x_axis(&ts, 2000);
    assert_eq!((ax.lo, ax.hi), (1000, 5000));
    assert_eq!(ax.labels, vec![1000, 3000, 5000]);
}

#[test]
fn percentage_bounds_are_fixed() {
    assert_eq!(PCT_Y_MIN, 0);
    assert_eq!(PCT_Y_MAX, 100);
}

#[test]
fn memory_axis_top_is_floored_near_zero_usage() {
    let cli = client_with_mem(vec![CliMem { smem_rss: 1, smem_used: 2, vram_rss: 1, vram_used: 3 }]);
    let axis: Vec<u64> = vec![1000];
    let chart = meminfo_chart(&cli, &axis);
    assert_eq!(chart.y_max, MEM_Y_FLOOR);
}

#[test]
fn memory_axis_top_tracks_peak_used_value() {
    let cli = client_with_mem(vec![
        CliMem { smem_rss: 10, smem_used: 4096, vram_rss: 5, vram_used: 9000 },
        CliMem { smem_rss: 10, smem_used: 2000, vram_rss: 5, vram_used: 100 },
    ]);
    let axis: Vec<u64> = vec![1000, 2000];
    let chart = meminfo_chart(&cli, &axis);
    assert_eq!(chart.y_max, 9000);
    assert_eq!(chart.sm_used, vec![(1000, 4096), (2000, 2000)]);
    assert_eq!(chart.vr_rss, vec![(1000, 5), (2000, 5)]);
}

#[test]
fn freq_chart_pairs_histories_with_axis() {
    let mut freqs = RingHistory::new(8);
    freqs.push(DevFreqs { min_freq: 300, max_freq: 1100, cur_freq: 600, act_freq: 580 });
    freqs.push(DevFreqs { min_freq: 200, max_freq: 1200, cur_freq: 700, act_freq: 650 });
    let mut mem_info = RingHistory::new(8);
    mem_info.push(DevMem {
        smem_used: 0,
        smem_total: 0,
        smem_rss: 0,
        vram_used: 0,
        vram_total: 0,
        vram_rss: 0,
    });
    let dev = DeviceState {
        pci_dev: String::from("0000:00:02.0"),
        drv_name: String::from("drv"),
        dev_type: String::from("Integrated"),
        dev_nodes: String::from("card0"),
        vdr_dev_rev: String::from("label"),
        eng_names: Vec::new(),
        mem_info,
        freqs,
        clis_stats: Vec::new(),
    };
    let axis: Vec<u64> = vec![1000, 2000];
    let chart = freq_chart(&dev, &axis);
    assert_eq!(chart.requested, vec![(1000, 600), (2000, 700)]);
    assert_eq!(chart.actual, vec![(1000, 580), (2000, 650)]);
    assert_eq!((chart.y_min, chart.y_max), (200, 1200));
}
